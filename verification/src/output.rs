//! Captured output: the accumulator that bounds output by a codepoint
//! budget while it streams in, the captured result, and its rendering as a
//! display-safe fenced message.

use vstd::prelude::*;
use vstd::utf8::{
    decode_utf8, is_char_boundary_iff_not_is_continuation_byte, valid_utf8, valid_utf8_concat,
    decode_utf8_split,
};

verus! {

// ---------------------------------------------------------------------------
// Decoding bytes, through the standard library
// ---------------------------------------------------------------------------

#[verifier::external_type_specification]
#[verifier::external_body]
pub struct ExUtf8Error(core::str::Utf8Error);

/// Relies on core::str::from_utf8: it succeeds exactly on valid UTF-8, and
/// the resulting slice's characters are the decoded scalars.
pub assume_specification[ core::str::from_utf8 ](v: &[u8]) -> (r: Result<
    &str,
    core::str::Utf8Error,
>)
    ensures
        r is Ok <==> valid_utf8(v@),
        (match r {
            Ok(s) => s@ == decode_utf8(v@),
            Err(_) => true,
        }),
;

/// What the standard library's lossy UTF-8 decoding yields: a function of
/// the bytes alone.
pub uninterp spec fn lossy_utf8(bytes: Seq<u8>) -> Seq<char>;

/// Relies on String::from_utf8_lossy: the result depends on the bytes
/// alone, and on valid UTF-8 it is the ordinary decoding.
#[verifier::external_body]
fn utf8_lossy(bytes: &Vec<u8>) -> (r: String)
    ensures
        r@ == lossy_utf8(bytes@),
        valid_utf8(bytes@) ==> r@ == decode_utf8(bytes@),
{
    String::from_utf8_lossy(bytes).into_owned()
}

// ---------------------------------------------------------------------------
// Codepoint accounting
// ---------------------------------------------------------------------------

/// What one chunk adds to the codepoint count: its character count when it
/// decodes, else, conservatively, its byte length.
pub open spec fn chunk_cost(c: Seq<u8>) -> nat {
    if valid_utf8(c) {
        decode_utf8(c).len()
    } else {
        c.len()
    }
}

/// The chunks joined in arrival order.
pub open spec fn concat_chunks(cs: Seq<Seq<u8>>) -> Seq<u8>
    decreases cs.len(),
{
    if cs.len() == 0 {
        Seq::empty()
    } else {
        cs[0] + concat_chunks(cs.drop_first())
    }
}

/// The codepoint count of a chunk sequence.
pub open spec fn total_cost(cs: Seq<Seq<u8>>) -> nat
    decreases cs.len(),
{
    if cs.len() == 0 {
        0
    } else {
        chunk_cost(cs[0]) + total_cost(cs.drop_first())
    }
}

/// The truncation marker, appended once when the budget is exceeded.
pub open spec fn marker_bytes() -> Seq<u8> {
    seq![46u8, 46u8, 46u8]
}

/// The codepoint count of a chunk.
fn chunk_codepoints(chunk: &[u8]) -> (r: usize)
    ensures
        r == chunk_cost(chunk@),
{
    match core::str::from_utf8(chunk) {
        Ok(s) => s.unicode_len(),
        Err(_) => chunk.len(),
    }
}

// ---------------------------------------------------------------------------
// The output accumulator
// ---------------------------------------------------------------------------

/// Accumulates streamed output chunks under a codepoint budget. A chunk
/// that would push the running count past the budget is not taken: the
/// marker is appended instead and the accumulator closes.
pub struct OutputBuilder {
    buf: Vec<u8>,
    codepoints: usize,
    budget: usize,
    overflowed: bool,
    chunks: Ghost<Seq<Seq<u8>>>,
}

impl OutputBuilder {
    /// The accepted chunks, in arrival order.
    pub closed spec fn chunks(&self) -> Seq<Seq<u8>> {
        self.chunks@
    }

    /// The bytes captured so far.
    pub closed spec fn captured(&self) -> Seq<u8> {
        self.buf@
    }

    pub closed spec fn spec_budget(&self) -> nat {
        self.budget as nat
    }

    pub closed spec fn spec_overflowed(&self) -> bool {
        self.overflowed
    }

    /// The accumulator's invariant: the buffer is the accepted chunks in
    /// order, the marker after them once overflowed, and the accepted
    /// codepoint count never exceeds the budget.
    pub closed spec fn wf(&self) -> bool {
        &&& total_cost(self.chunks@) <= self.budget
        &&& if self.overflowed {
            self.buf@ == concat_chunks(self.chunks@) + marker_bytes()
        } else {
            self.buf@ == concat_chunks(self.chunks@) && self.codepoints == total_cost(self.chunks@)
        }
    }

    pub fn new(budget: usize) -> (r: OutputBuilder)
        ensures
            r.wf(),
            r.spec_budget() == budget,
            !r.spec_overflowed(),
            r.chunks() == Seq::<Seq<u8>>::empty(),
            r.captured() == Seq::<u8>::empty(),
    {
        let r = OutputBuilder {
            buf: Vec::new(),
            codepoints: 0,
            budget,
            overflowed: false,
            chunks: Ghost(Seq::empty()),
        };
        proof {
            assert(concat_chunks(r.chunks@) =~= Seq::<u8>::empty());
        }
        r
    }

    pub fn overflowed(&self) -> (r: bool)
        ensures
            r == self.spec_overflowed(),
    {
        self.overflowed
    }

    /// Takes one streamed chunk. Gives back true exactly when the chunk
    /// overran the budget; the chunk is then dropped, the marker appended,
    /// and the accumulator closed. Otherwise the chunk's bytes follow the
    /// earlier ones unchanged, so emission order is preserved.
    pub fn push_chunk(&mut self, chunk: &[u8]) -> (overflow: bool)
        requires
            old(self).wf(),
            !old(self).spec_overflowed(),
        ensures
            final(self).wf(),
            final(self).spec_budget() == old(self).spec_budget(),
            overflow == (total_cost(old(self).chunks()) + chunk_cost(chunk@) > old(
                self,
            ).spec_budget()),
            overflow == final(self).spec_overflowed(),
            !overflow ==> final(self).chunks() == old(self).chunks().push(chunk@)
                && final(self).captured() == old(self).captured() + chunk@,
            overflow ==> final(self).chunks() == old(self).chunks() && final(self).captured()
                == old(self).captured() + marker_bytes(),
    {
        let cost = chunk_codepoints(chunk);
        if cost > self.budget - self.codepoints {
            self.overflowed = true;
            self.buf.push(46u8);
            self.buf.push(46u8);
            self.buf.push(46u8);
            proof {
                assert(self.buf@ =~= concat_chunks(self.chunks@) + marker_bytes());
            }
            true
        } else {
            self.codepoints = self.codepoints + cost;
            let ghost pre_chunks = self.chunks@;
            self.buf.extend_from_slice(chunk);
            proof {
                self.chunks@ = pre_chunks.push(chunk@);
                lemma_concat_chunks_push(pre_chunks, chunk@);
                lemma_total_cost_push(pre_chunks, chunk@);
                assert(self.buf@ =~= concat_chunks(self.chunks@));
            }
            false
        }
    }
}

proof fn lemma_concat_chunks_push(cs: Seq<Seq<u8>>, c: Seq<u8>)
    ensures
        concat_chunks(cs.push(c)) =~= concat_chunks(cs) + c,
    decreases cs.len(),
{
    if cs.len() == 0 {
        assert(cs.push(c)[0] == c);
        assert(cs.push(c).drop_first() =~= Seq::<Seq<u8>>::empty());
        assert(concat_chunks(Seq::<Seq<u8>>::empty()) =~= Seq::<u8>::empty());
        assert(concat_chunks(cs) =~= Seq::<u8>::empty());
        assert(concat_chunks(cs.push(c)) =~= c + Seq::<u8>::empty());
    } else {
        assert(cs.push(c).drop_first() =~= cs.drop_first().push(c));
        lemma_concat_chunks_push(cs.drop_first(), c);
        assert(cs.push(c)[0] == cs[0]);
    }
}

proof fn lemma_total_cost_push(cs: Seq<Seq<u8>>, c: Seq<u8>)
    ensures
        total_cost(cs.push(c)) == total_cost(cs) + chunk_cost(c),
    decreases cs.len(),
{
    if cs.len() == 0 {
        assert(cs.push(c).drop_first() =~= Seq::<Seq<u8>>::empty());
        assert(cs.push(c)[0] == c);
        assert(total_cost(Seq::<Seq<u8>>::empty()) == 0);
    } else {
        assert(cs.push(c).drop_first() =~= cs.drop_first().push(c));
        lemma_total_cost_push(cs.drop_first(), c);
        assert(cs.push(c)[0] == cs[0]);
    }
}

// ---------------------------------------------------------------------------
// The budget law
// ---------------------------------------------------------------------------

proof fn lemma_decode_concat(b1: Seq<u8>, b2: Seq<u8>)
    requires
        valid_utf8(b1),
        valid_utf8(b2),
    ensures
        valid_utf8(b1 + b2),
        decode_utf8(b1 + b2) == decode_utf8(b1) + decode_utf8(b2),
{
    valid_utf8_concat(b1, b2);
    let w = b1 + b2;
    if b2.len() == 0 {
        assert(w =~= b1);
        assert(decode_utf8(b2) =~= Seq::<char>::empty());
        assert(decode_utf8(b1) + decode_utf8(b2) =~= decode_utf8(b1));
    } else if b1.len() == 0 {
        assert(w =~= b2);
        assert(decode_utf8(b1) =~= Seq::<char>::empty());
        assert(decode_utf8(b1) + decode_utf8(b2) =~= decode_utf8(b2));
    } else {
        assert(w[b1.len() as int] == b2[0]);
        assert(!vstd::utf8::is_continuation_byte(b2[0]));
        is_char_boundary_iff_not_is_continuation_byte(w, b1.len() as int);
        decode_utf8_split(w, b1.len() as int);
        assert(w.subrange(0, b1.len() as int) =~= b1);
        assert(w.subrange(b1.len() as int, w.len() as int) =~= b2);
    }
}

proof fn lemma_concat_chunks_valid(cs: Seq<Seq<u8>>)
    requires
        forall|i: int| 0 <= i < cs.len() ==> valid_utf8(#[trigger] cs[i]),
    ensures
        valid_utf8(concat_chunks(cs)),
        decode_utf8(concat_chunks(cs)).len() == total_cost(cs),
    decreases cs.len(),
{
    if cs.len() == 0 {
        assert(concat_chunks(cs) =~= Seq::<u8>::empty());
    } else {
        assert(forall|i: int|
            0 <= i < cs.drop_first().len() ==> #[trigger] cs.drop_first()[i] == cs[i + 1]);
        lemma_concat_chunks_valid(cs.drop_first());
        lemma_decode_concat(cs[0], concat_chunks(cs.drop_first()));
    }
}

proof fn lemma_marker_valid()
    ensures
        valid_utf8(marker_bytes()),
        decode_utf8(marker_bytes()).len() == 3,
{
    let m2 = seq![46u8, 46u8];
    let m1 = seq![46u8];
    let m0 = Seq::<u8>::empty();
    assert(vstd::utf8::is_leading_byte_width_1(46u8));
    assert(vstd::utf8::length_of_first_scalar(marker_bytes()) == 1);
    assert(vstd::utf8::pop_first_scalar(marker_bytes()) =~= m2);
    assert(vstd::utf8::length_of_first_scalar(m2) == 1);
    assert(vstd::utf8::pop_first_scalar(m2) =~= m1);
    assert(vstd::utf8::length_of_first_scalar(m1) == 1);
    assert(vstd::utf8::pop_first_scalar(m1) =~= m0);
    assert(valid_utf8(m0));
    assert(valid_utf8(m1));
    assert(valid_utf8(m2));
    assert(decode_utf8(m0).len() == 0);
    assert(decode_utf8(m1).len() == 1);
    assert(decode_utf8(m2).len() == 2);
}

/// The budget law: when every accepted chunk decodes, the captured bytes
/// decode too, to at most the budget in characters — at most the budget
/// plus the marker once truncated, with the marker at the very end.
pub proof fn lemma_captured_within_budget(b: &OutputBuilder)
    requires
        b.wf(),
        forall|i: int| 0 <= i < b.chunks().len() ==> valid_utf8(#[trigger] b.chunks()[i]),
    ensures
        valid_utf8(b.captured()),
        decode_utf8(b.captured()).len() <= b.spec_budget() + marker_bytes().len(),
        !b.spec_overflowed() ==> decode_utf8(b.captured()).len() <= b.spec_budget(),
        b.spec_overflowed() ==> b.captured().len() >= 3 && b.captured().skip(
            b.captured().len() - 3,
        ) == marker_bytes(),
{
    lemma_concat_chunks_valid(b.chunks());
    if b.spec_overflowed() {
        lemma_marker_valid();
        lemma_decode_concat(concat_chunks(b.chunks()), marker_bytes());
        assert(b.captured().skip(b.captured().len() - 3) =~= marker_bytes());
    }
}

// ---------------------------------------------------------------------------
// The captured result
// ---------------------------------------------------------------------------

impl OutputBuilder {
    /// Turns the captured bytes into text: the straight decoding when they
    /// are valid UTF-8, the standard lossy decoding otherwise.
    pub fn build(self) -> (r: String)
        ensures
            valid_utf8(self.captured()) ==> r@ == decode_utf8(self.captured()),
            !valid_utf8(self.captured()) ==> r@ == lossy_utf8(self.captured()),
    {
        match core::str::from_utf8(self.buf.as_slice()) {
            Ok(s) => s.to_owned(),
            Err(_) => utf8_lossy(&self.buf),
        }
    }
}

/// Captured output of one run: the exit status and the combined
/// stdout/stderr text.
#[derive(Debug, PartialEq, Eq)]
pub struct Output {
    pub status: u64,
    pub tty: String,
}

impl Output {
    /// The run succeeded exactly when it exited with status zero.
    pub fn success(&self) -> (r: bool)
        ensures
            r == (self.status == 0),
    {
        self.status == 0
    }
}

// ---------------------------------------------------------------------------
// Rendering as a display-safe message
// ---------------------------------------------------------------------------

/// The visually similar substitution for a fence delimiter inside captured
/// text, so the text cannot break out of the fenced block.
pub open spec fn fence_subst() -> Seq<char> {
    seq!['\u{02CB}', '\u{02CB}', '\u{02CB}']
}

/// Captured text with every fence delimiter substituted, scanning left to
/// right.
pub open spec fn fence_escape(s: Seq<char>) -> Seq<char>
    decreases s.len(),
{
    if s.len() == 0 {
        Seq::empty()
    } else if s.len() >= 3 && s[0] == '`' && s[1] == '`' && s[2] == '`' {
        fence_subst() + fence_escape(s.skip(3))
    } else {
        seq![s[0]] + fence_escape(s.drop_first())
    }
}

/// The decimal digit characters of a number, most significant first.
pub open spec fn digit_char(d: nat) -> char {
    if d == 0 {
        '0'
    } else if d == 1 {
        '1'
    } else if d == 2 {
        '2'
    } else if d == 3 {
        '3'
    } else if d == 4 {
        '4'
    } else if d == 5 {
        '5'
    } else if d == 6 {
        '6'
    } else if d == 7 {
        '7'
    } else if d == 8 {
        '8'
    } else {
        '9'
    }
}

pub open spec fn dec_str(n: nat) -> Seq<char>
    decreases n,
{
    if n < 10 {
        seq![digit_char(n)]
    } else {
        dec_str(n / 10) + seq![digit_char(n % 10)]
    }
}

/// The whole rendered message: a bold exit-status line for a failed run,
/// the captured text in a fenced block with fence delimiters substituted,
/// and nothing at all for a silent successful run.
pub open spec fn render_output(status: u64, tty: Seq<char>) -> Seq<char> {
    let block = "```\n"@ + fence_escape(tty) + "```"@;
    if status != 0 {
        "**EXIT STATUS:** "@ + dec_str(status as nat) + "\n"@ + block
    } else if tty.len() == 0 {
        Seq::empty()
    } else {
        block
    }
}

/// Appends the decimal digits of `n`.
fn append_dec(n: u64, out: &mut String)
    ensures
        final(out)@ == old(out)@ + dec_str(n as nat),
    decreases n,
{
    let ghost start = out@;
    if n >= 10 {
        append_dec(n / 10, out);
    }
    let d = n % 10;
    let ds: &'static str = match d {
        0 => "0",
        1 => "1",
        2 => "2",
        3 => "3",
        4 => "4",
        5 => "5",
        6 => "6",
        7 => "7",
        8 => "8",
        _ => "9",
    };
    proof {
        reveal_strlit("0");
        reveal_strlit("1");
        reveal_strlit("2");
        reveal_strlit("3");
        reveal_strlit("4");
        reveal_strlit("5");
        reveal_strlit("6");
        reveal_strlit("7");
        reveal_strlit("8");
        reveal_strlit("9");
        assert(ds@ =~= seq![digit_char((n % 10) as nat)]);
    }
    out.append(ds);
    proof {
        if n >= 10 {
            assert(start + (dec_str((n / 10) as nat) + seq![digit_char((n % 10) as nat)]) =~= (
            start + dec_str((n / 10) as nat)) + seq![digit_char((n % 10) as nat)]);
        }
    }
}

/// Substitutes every fence delimiter in a string.
fn fence_escape_str(s: &str) -> (r: String)
    ensures
        r@ == fence_escape(s@),
{
    let n = s.unicode_len();
    let mut out = String::new();
    let mut i: usize = 0;
    proof {
        assert(s@.skip(0) =~= s@);
        assert(Seq::<char>::empty() + fence_escape(s@) =~= fence_escape(s@));
    }
    while i < n
        invariant
            i <= n,
            n == s@.len(),
            fence_escape(s@) == out@ + fence_escape(s@.skip(i as int)),
        decreases n - i,
    {
        let ghost rest = s@.skip(i as int);
        if n - i >= 3 && s.get_char(i) == '`' && s.get_char(i + 1) == '`' && s.get_char(i + 2)
            == '`' {
            let ghost pre = out@;
            out.append("\u{02CB}\u{02CB}\u{02CB}");
            proof {
                reveal_strlit("\u{02CB}\u{02CB}\u{02CB}");
                assert("\u{02CB}\u{02CB}\u{02CB}"@ =~= fence_subst());
                assert(rest[0] == '`' && rest[1] == '`' && rest[2] == '`');
                assert(rest.skip(3) =~= s@.skip(i + 3));
                assert(pre + (fence_subst() + fence_escape(s@.skip(i + 3))) =~= (pre
                    + fence_subst()) + fence_escape(s@.skip(i + 3)));
            }
            i = i + 3;
        } else {
            let c = s.get_char(i);
            let ghost pre = out@;
            out.append(s.substring_char(i, i + 1));
            proof {
                assert(rest[0] == c);
                assert(s@.subrange(i as int, i + 1) =~= seq![c]);
                assert(rest.drop_first() =~= s@.skip(i + 1));
                assert(pre + (seq![c] + fence_escape(s@.skip(i + 1))) =~= (pre + seq![c])
                    + fence_escape(s@.skip(i + 1)));
            }
            i = i + 1;
        }
    }
    proof {
        assert(s@.skip(n as int) =~= Seq::<char>::empty());
        assert(fence_escape(Seq::<char>::empty()) =~= Seq::<char>::empty());
        assert(out@ + Seq::<char>::empty() =~= out@);
    }
    out
}

impl Output {
    /// Renders the output for display: a bold exit-status line when the
    /// run failed, and the captured text in a fenced block that the text
    /// cannot break out of; an empty message for a silent success.
    pub fn render(&self) -> (r: String)
        ensures
            r@ == render_output(self.status, self.tty@),
    {
        let mut out = String::new();
        if self.status != 0 {
            out.append("**EXIT STATUS:** ");
            append_dec(self.status, &mut out);
            out.append("\n");
        } else if self.tty.as_str().unicode_len() == 0 {
            return out;
        }
        out.append("```\n");
        let escaped = fence_escape_str(self.tty.as_str());
        out.append(escaped.as_str());
        out.append("```");
        out
    }
}

/// Emission order is preserved: what the accumulator holds is exactly the
/// accepted chunks joined in arrival order, the marker after them once
/// truncated.
pub proof fn lemma_captured_in_emission_order(b: &OutputBuilder)
    requires
        b.wf(),
    ensures
        !b.spec_overflowed() ==> b.captured() == concat_chunks(b.chunks()),
        b.spec_overflowed() ==> b.captured() == concat_chunks(b.chunks()) + marker_bytes(),
{
}

} // verus!
