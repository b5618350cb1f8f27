//! Parser for the option string DSL: whitespace-separated `identifier=value`
//! pairs, where a value is either quoted (with backslash escapes for the
//! backslash and the quote) or an unquoted run of non-space, non-quote
//! characters. The whole input must be consumed and keys must be distinct.

use vstd::prelude::*;

verus! {

// ---------------------------------------------------------------------------
// Character classes
// ---------------------------------------------------------------------------

pub open spec fn is_space_char(c: char) -> bool {
    c == ' ' || c == '\t' || c == '\n' || c == '\r'
}

pub open spec fn is_ident_start_char(c: char) -> bool {
    ('a' <= c && c <= 'z') || ('A' <= c && c <= 'Z') || c == '_'
}

pub open spec fn is_ident_char(c: char) -> bool {
    is_ident_start_char(c) || ('0' <= c && c <= '9')
}

/// Characters allowed in an unquoted value.
pub open spec fn is_unquoted_char(c: char) -> bool {
    !is_space_char(c) && c != '"'
}

/// A valid option key: an identifier.
pub open spec fn is_ident(s: Seq<char>) -> bool {
    &&& s.len() > 0
    &&& is_ident_start_char(s[0])
    &&& forall|i: int| 1 <= i < s.len() ==> is_ident_char(#[trigger] s[i])
}

fn space_char(c: char) -> (r: bool)
    ensures
        r == is_space_char(c),
{
    c == ' ' || c == '\t' || c == '\n' || c == '\r'
}

fn ident_start_char(c: char) -> (r: bool)
    ensures
        r == is_ident_start_char(c),
{
    ('a' <= c && c <= 'z') || ('A' <= c && c <= 'Z') || c == '_'
}

fn ident_char(c: char) -> (r: bool)
    ensures
        r == is_ident_char(c),
{
    ident_start_char(c) || ('0' <= c && c <= '9')
}

fn unquoted_char(c: char) -> (r: bool)
    ensures
        r == is_unquoted_char(c),
{
    !space_char(c) && c != '"'
}

// ---------------------------------------------------------------------------
// Longest runs of a character class
// ---------------------------------------------------------------------------

/// Length of the longest prefix of `s` whose characters all satisfy `pred`.
pub open spec fn run_len(s: Seq<char>, pred: spec_fn(char) -> bool) -> int
    decreases s.len(),
{
    if s.len() > 0 && pred(s[0]) {
        1 + run_len(s.drop_first(), pred)
    } else {
        0
    }
}

pub proof fn lemma_run_len(s: Seq<char>, pred: spec_fn(char) -> bool)
    ensures
        0 <= run_len(s, pred) <= s.len(),
        forall|i: int| 0 <= i < run_len(s, pred) ==> pred(#[trigger] s[i]),
        run_len(s, pred) < s.len() ==> !pred(s[run_len(s, pred)]),
    decreases s.len(),
{
    if s.len() > 0 && pred(s[0]) {
        lemma_run_len(s.drop_first(), pred);
        assert forall|i: int| 0 <= i < run_len(s, pred) implies pred(#[trigger] s[i]) by {
            if i >= 1 {
                assert(s.drop_first()[i - 1] == s[i]);
            }
        }
    }
}

/// A run stops exactly where the class first fails.
pub proof fn lemma_run_len_is(s: Seq<char>, pred: spec_fn(char) -> bool, n: int)
    requires
        0 <= n <= s.len(),
        forall|i: int| 0 <= i < n ==> pred(#[trigger] s[i]),
        n < s.len() ==> !pred(s[n]),
    ensures
        run_len(s, pred) == n,
    decreases s.len(),
{
    if s.len() > 0 && pred(s[0]) {
        assert(forall|i: int| 0 <= i < n - 1 ==> pred(#[trigger] s.drop_first()[i]));
        lemma_run_len_is(s.drop_first(), pred, n - 1);
    }
}

// ---------------------------------------------------------------------------
// The grammar, as a deterministic specification-level parser
// ---------------------------------------------------------------------------

/// Outcome of parsing the inside of a quoted value, after the opening quote.
/// `used` counts the characters consumed, the closing quote included;
/// `value` is the decoded text.
pub enum QuotedParse {
    Closed { used: int, value: Seq<char> },
    Unterminated,
    BadEscape,
}

pub open spec fn parse_quoted_body(s: Seq<char>) -> QuotedParse
    decreases s.len(),
{
    if s.len() == 0 {
        QuotedParse::Unterminated
    } else if s[0] == '"' {
        QuotedParse::Closed { used: 1, value: Seq::empty() }
    } else if s[0] == '\\' {
        if s.len() == 1 {
            QuotedParse::Unterminated
        } else if s[1] == '\\' || s[1] == '"' {
            match parse_quoted_body(s.skip(2)) {
                QuotedParse::Closed { used, value } => QuotedParse::Closed {
                    used: used + 2,
                    value: seq![s[1]] + value,
                },
                e => e,
            }
        } else {
            QuotedParse::BadEscape
        }
    } else {
        match parse_quoted_body(s.skip(1)) {
            QuotedParse::Closed { used, value } => QuotedParse::Closed {
                used: used + 1,
                value: seq![s[0]] + value,
            },
            e => e,
        }
    }
}

pub proof fn lemma_parse_quoted_body_bounds(s: Seq<char>)
    requires
        parse_quoted_body(s) is Closed,
    ensures
        1 <= parse_quoted_body(s)->Closed_used <= s.len(),
    decreases s.len(),
{
    if s.len() == 0 {
    } else if s[0] == '"' {
    } else if s[0] == '\\' {
        if s.len() > 1 && (s[1] == '\\' || s[1] == '"') {
            lemma_parse_quoted_body_bounds(s.skip(2));
        }
    } else {
        lemma_parse_quoted_body_bounds(s.skip(1));
    }
}

/// Outcome of parsing a value where one is expected.
pub enum ValueParse {
    Found { used: int, value: Seq<char> },
    Missing,
    Unterminated,
    BadEscape,
}

pub open spec fn parse_value(s: Seq<char>) -> ValueParse {
    if s.len() > 0 && s[0] == '"' {
        match parse_quoted_body(s.skip(1)) {
            QuotedParse::Closed { used, value } => ValueParse::Found { used: used + 1, value },
            QuotedParse::Unterminated => ValueParse::Unterminated,
            QuotedParse::BadEscape => ValueParse::BadEscape,
        }
    } else {
        let n = run_len(s, |c: char| is_unquoted_char(c));
        if n > 0 {
            ValueParse::Found { used: n, value: s.take(n) }
        } else {
            ValueParse::Missing
        }
    }
}

pub proof fn lemma_parse_value_bounds(s: Seq<char>)
    requires
        parse_value(s) is Found,
    ensures
        1 <= parse_value(s)->Found_used <= s.len(),
{
    if s.len() > 0 && s[0] == '"' {
        lemma_parse_quoted_body_bounds(s.skip(1));
    } else {
        lemma_run_len(s, |c: char| is_unquoted_char(c));
    }
}

/// Outcome of parsing one `identifier=value` pair.
pub enum PairParse {
    Found { used: int, key: Seq<char>, value: Seq<char> },
    Missing,
    Unterminated,
    BadEscape,
}

pub open spec fn parse_pair(s: Seq<char>) -> PairParse {
    if s.len() == 0 || !is_ident_start_char(s[0]) {
        PairParse::Missing
    } else {
        let k = 1 + run_len(s.skip(1), |c: char| is_ident_char(c));
        if k < s.len() && s[k] == '=' {
            match parse_value(s.skip(k + 1)) {
                ValueParse::Found { used, value } => PairParse::Found {
                    used: k + 1 + used,
                    key: s.take(k),
                    value,
                },
                ValueParse::Missing => PairParse::Missing,
                ValueParse::Unterminated => PairParse::Unterminated,
                ValueParse::BadEscape => PairParse::BadEscape,
            }
        } else {
            PairParse::Missing
        }
    }
}

pub proof fn lemma_parse_pair_bounds(s: Seq<char>)
    requires
        parse_pair(s) is Found,
    ensures
        1 <= parse_pair(s)->Found_used <= s.len(),
        is_ident(parse_pair(s)->Found_key),
{
    let pred = |c: char| is_ident_char(c);
    lemma_run_len(s.skip(1), pred);
    let k = 1 + run_len(s.skip(1), pred);
    lemma_parse_value_bounds(s.skip(k + 1));
    let key = s.take(k);
    assert forall|i: int| 1 <= i < key.len() implies is_ident_char(#[trigger] key[i]) by {
        assert(s.skip(1)[i - 1] == key[i]);
    }
}

/// Outcome of parsing a whole pair list.
pub enum ListParse {
    Pairs { used: int, pairs: Seq<(Seq<char>, Seq<char>)> },
    Unterminated,
    BadEscape,
}

/// After one pair, each further pair needs at least one whitespace separator
/// before it; a separator not followed by a pair is left unconsumed.
pub open spec fn parse_more_pairs(s: Seq<char>) -> ListParse
    decreases s.len(),
        via parse_more_pairs_decreases
{
    let w = run_len(s, |c: char| is_space_char(c));
    if w == 0 {
        ListParse::Pairs { used: 0, pairs: Seq::empty() }
    } else {
        match parse_pair(s.skip(w)) {
            PairParse::Found { used, key, value } => {
                match parse_more_pairs(s.skip(w + used)) {
                    ListParse::Pairs { used: more, pairs } => ListParse::Pairs {
                        used: w + used + more,
                        pairs: seq![(key, value)] + pairs,
                    },
                    e => e,
                }
            },
            PairParse::Missing => ListParse::Pairs { used: 0, pairs: Seq::empty() },
            PairParse::Unterminated => ListParse::Unterminated,
            PairParse::BadEscape => ListParse::BadEscape,
        }
    }
}

#[via_fn]
proof fn parse_more_pairs_decreases(s: Seq<char>) {
    let w = run_len(s, |c: char| is_space_char(c));
    lemma_run_len(s, |c: char| is_space_char(c));
    if w != 0 && parse_pair(s.skip(w)) is Found {
        lemma_parse_pair_bounds(s.skip(w));
    }
}

pub open spec fn parse_config(s: Seq<char>) -> ListParse {
    match parse_pair(s) {
        PairParse::Found { used, key, value } => {
            match parse_more_pairs(s.skip(used)) {
                ListParse::Pairs { used: more, pairs } => ListParse::Pairs {
                    used: used + more,
                    pairs: seq![(key, value)] + pairs,
                },
                e => e,
            }
        },
        PairParse::Missing => ListParse::Pairs { used: 0, pairs: Seq::empty() },
        PairParse::Unterminated => ListParse::Unterminated,
        PairParse::BadEscape => ListParse::BadEscape,
    }
}

// ---------------------------------------------------------------------------
// Duplicate keys, and the overall outcome
// ---------------------------------------------------------------------------

/// The first key, scanning left to right, that repeats an earlier key.
pub open spec fn first_dup_key_from(pairs: Seq<(Seq<char>, Seq<char>)>, j: int) -> Option<
    Seq<char>,
>
    decreases pairs.len() - j,
{
    if j < 0 || j >= pairs.len() {
        None
    } else if exists|i: int| 0 <= i < j && pairs[i].0 == pairs[j].0 {
        Some(pairs[j].0)
    } else {
        first_dup_key_from(pairs, j + 1)
    }
}

pub open spec fn first_dup_key(pairs: Seq<(Seq<char>, Seq<char>)>) -> Option<Seq<char>> {
    first_dup_key_from(pairs, 0)
}

/// What parsing an option string yields: the pair list in input order, or
/// the first error.
pub enum ParsedOptions {
    Parsed { pairs: Seq<(Seq<char>, Seq<char>)> },
    Unterminated,
    BadEscape,
    Trailing { rest: Seq<char> },
    Duplicate { key: Seq<char> },
}

pub open spec fn spec_parse_options(s: Seq<char>) -> ParsedOptions {
    match parse_config(s) {
        ListParse::Unterminated => ParsedOptions::Unterminated,
        ListParse::BadEscape => ParsedOptions::BadEscape,
        ListParse::Pairs { used, pairs } => {
            let w = run_len(s.skip(used), |c: char| is_space_char(c));
            if used + w < s.len() {
                ParsedOptions::Trailing { rest: s.skip(used + w) }
            } else {
                match first_dup_key(pairs) {
                    Some(key) => ParsedOptions::Duplicate { key },
                    None => ParsedOptions::Parsed { pairs },
                }
            }
        },
    }
}

// ---------------------------------------------------------------------------
// The options map
// ---------------------------------------------------------------------------

/// Looks a key up in a pair list, scanning left to right.
pub open spec fn lookup(pairs: Seq<(Seq<char>, Seq<char>)>, key: Seq<char>) -> Option<Seq<char>>
    decreases pairs.len(),
{
    if pairs.len() == 0 {
        None
    } else if pairs[0].0 == key {
        Some(pairs[0].1)
    } else {
        lookup(pairs.drop_first(), key)
    }
}

/// A mapping from option keys to values, in first-seen order, with distinct
/// keys.
#[derive(Debug, PartialEq, Eq)]
pub struct Options {
    entries: Vec<(String, String)>,
}

spec fn pairs_of(es: Seq<(String, String)>) -> Seq<(Seq<char>, Seq<char>)> {
    es.map_values(|e: (String, String)| (e.0@, e.1@))
}

impl Options {
    /// The key/value pairs, in order.
    pub closed spec fn pairs(&self) -> Seq<(Seq<char>, Seq<char>)> {
        pairs_of(self.entries@)
    }

    /// Keys are distinct.
    pub open spec fn wf(&self) -> bool {
        forall|i: int, j: int|
            0 <= i < j < self.pairs().len() ==> (#[trigger] self.pairs()[i]).0 != (
            #[trigger] self.pairs()[j]).0
    }

    pub open spec fn spec_len(&self) -> nat {
        self.pairs().len()
    }

    pub fn new() -> (r: Options)
        ensures
            r.pairs() == Seq::<(Seq<char>, Seq<char>)>::empty(),
            r.wf(),
    {
        Options { entries: Vec::new() }
    }

    pub fn len(&self) -> (r: usize)
        ensures
            r == self.spec_len(),
    {
        self.entries.len()
    }

    pub fn is_empty(&self) -> (r: bool)
        ensures
            r == (self.spec_len() == 0),
    {
        self.entries.len() == 0
    }

    /// The key of the entry at a position.
    pub fn key_at(&self, i: usize) -> (r: &String)
        requires
            i < self.spec_len(),
        ensures
            r@ == self.pairs()[i as int].0,
    {
        &self.entries[i].0
    }

    /// The value of the entry at a position.
    pub fn value_at(&self, i: usize) -> (r: &String)
        requires
            i < self.spec_len(),
        ensures
            r@ == self.pairs()[i as int].1,
    {
        &self.entries[i].1
    }

    /// Binds `key` to `value`: replaces the value of an existing entry, or
    /// appends a new one.
    pub fn insert(&mut self, key: String, value: String)
        requires
            old(self).wf(),
        ensures
            final(self).wf(),
            lookup(final(self).pairs(), key@) == Some::<Seq<char>>(value@),
            final(self).spec_len() == if lookup(old(self).pairs(), key@) is Some {
                old(self).spec_len()
            } else {
                old(self).spec_len() + 1
            },
            forall|k: Seq<char>|
                k != key@ ==> #[trigger] lookup(final(self).pairs(), k) == lookup(
                    old(self).pairs(),
                    k,
                ),
    {
        let ghost pre = *self;
        let n = self.entries.len();
        for i in 0..n
            invariant
                n == self.spec_len(),
                *self == pre,
                pre == *old(self),
                pre.wf(),
                forall|j: int| 0 <= j < i ==> (#[trigger] pre.pairs()[j]).0 != key@,
        {
            if str_eq(self.entries[i].0.as_str(), key.as_str()) {
                self.entries[i].1 = value;
                proof {
                    assert(self.pairs() =~= pre.pairs().update(i as int, (key@, value@)));
                    lemma_lookup_found(pre.pairs(), key@, i as int);
                    lemma_lookup_update(pre.pairs(), self.pairs(), key@, value@, i as int);
                    assert forall|a: int, b: int|
                        0 <= a < b < self.pairs().len() implies (#[trigger] self.pairs()[a]).0 != (
                    #[trigger] self.pairs()[b]).0 by {
                        assert((pre.pairs()[a]).0 != (pre.pairs()[b]).0);
                    }
                }
                return ;
            }
        }
        self.entries.push((key, value));
        proof {
            lemma_lookup_none(pre.pairs(), key@);
            lemma_lookup_append(pre.pairs(), key@, value@);
            assert(self.pairs() =~= pre.pairs() + seq![(key@, value@)]);
            assert forall|a: int, b: int|
                0 <= a < b < self.pairs().len() implies (#[trigger] self.pairs()[a]).0 != (
            #[trigger] self.pairs()[b]).0 by {
                if b < pre.pairs().len() {
                    assert((pre.pairs()[a]).0 != (pre.pairs()[b]).0);
                } else {
                    assert(self.pairs()[b].0 == key@);
                    assert(pre.pairs()[a].0 != key@);
                }
            }
        }
    }

    /// Removes the entry with `key`, giving its value.
    pub fn remove(&mut self, key: &str) -> (r: Option<String>)
        requires
            old(self).wf(),
        ensures
            final(self).wf(),
            match r {
                Some(v) => {
                    &&& lookup(old(self).pairs(), key@) == Some(v@)
                    &&& exists|i: int|
                        0 <= i < old(self).spec_len() && old(self).pairs()[i].0 == key@
                            && final(self).pairs() == old(self).pairs().remove(i)
                },
                None => {
                    &&& lookup(old(self).pairs(), key@) is None
                    &&& *final(self) == *old(self)
                },
            },
            lookup(final(self).pairs(), key@) is None,
            forall|k: Seq<char>|
                k != key@ ==> #[trigger] lookup(final(self).pairs(), k) == lookup(
                    old(self).pairs(),
                    k,
                ),
    {
        let ghost pre = *self;
        let n = self.entries.len();
        for i in 0..n
            invariant
                n == self.spec_len(),
                *self == pre,
                pre == *old(self),
                pre.wf(),
                forall|j: int| 0 <= j < i ==> (#[trigger] pre.pairs()[j]).0 != key@,
        {
            if str_eq(self.entries[i].0.as_str(), key) {
                let (_, v) = self.entries.remove(i);
                proof {
                    assert(self.pairs() =~= pre.pairs().remove(i as int));
                    assert forall|j: int|
                        0 <= j < pre.pairs().len() && j != i implies (
                    #[trigger] pre.pairs()[j]).0 != key@ by {
                        if j > i {
                            assert((pre.pairs()[i as int]).0 != (pre.pairs()[j]).0);
                        }
                    }
                    lemma_lookup_remove(pre.pairs(), key@, i as int);
                    assert forall|a: int, b: int|
                        0 <= a < b < self.pairs().len() implies (#[trigger] self.pairs()[a]).0 != (
                    #[trigger] self.pairs()[b]).0 by {
                        let a0: int = if a < i { a } else { a + 1 };
                        let b0: int = if b < i { b } else { b + 1 };
                        assert((pre.pairs()[a0]).0 != (pre.pairs()[b0]).0);
                    }
                }
                return Some(v);
            }
        }
        proof {
            lemma_lookup_none(pre.pairs(), key@);
        }
        None
    }

    /// Looks a key up without consuming it.
    pub fn get(&self, key: &str) -> (r: Option<&String>)
        requires
            self.wf(),
        ensures
            match r {
                Some(v) => lookup(self.pairs(), key@) == Some(v@),
                None => lookup(self.pairs(), key@) is None,
            },
    {
        let n = self.entries.len();
        for i in 0..n
            invariant
                n == self.spec_len(),
                forall|j: int| 0 <= j < i ==> (#[trigger] self.pairs()[j]).0 != key@,
        {
            if str_eq(self.entries[i].0.as_str(), key) {
                proof {
                    lemma_lookup_found(self.pairs(), key@, i as int);
                }
                return Some(&self.entries[i].1);
            }
        }
        proof {
            lemma_lookup_none(self.pairs(), key@);
        }
        None
    }
}

impl Default for Options {
    /// An empty map.
    fn default() -> (r: Options)
        ensures
            r.pairs() == Seq::<(Seq<char>, Seq<char>)>::empty(),
            r.wf(),
    {
        Options { entries: Vec::new() }
    }
}

/// Character-wise string equality.
pub fn str_eq(a: &str, b: &str) -> (r: bool)
    ensures
        r == (a@ == b@),
{
    let na = a.unicode_len();
    let nb = b.unicode_len();
    if na != nb {
        return false;
    }
    for i in 0..na
        invariant
            na == a@.len(),
            na == b@.len(),
            forall|j: int| 0 <= j < i ==> a@[j] == b@[j],
    {
        if a.get_char(i) != b.get_char(i) {
            return false;
        }
    }
    proof {
        assert(a@ =~= b@);
    }
    true
}

proof fn lemma_lookup_found(pairs: Seq<(Seq<char>, Seq<char>)>, key: Seq<char>, i: int)
    requires
        0 <= i < pairs.len(),
        pairs[i].0 == key,
        forall|j: int| 0 <= j < i ==> (#[trigger] pairs[j]).0 != key,
    ensures
        lookup(pairs, key) == Some(pairs[i].1),
    decreases i,
{
    if i > 0 {
        lemma_lookup_found(pairs.drop_first(), key, i - 1);
    }
}

proof fn lemma_lookup_none(pairs: Seq<(Seq<char>, Seq<char>)>, key: Seq<char>)
    requires
        forall|j: int| 0 <= j < pairs.len() ==> (#[trigger] pairs[j]).0 != key,
    ensures
        lookup(pairs, key) is None,
    decreases pairs.len(),
{
    if pairs.len() > 0 {
        lemma_lookup_none(pairs.drop_first(), key);
    }
}

proof fn lemma_lookup_update(
    pre: Seq<(Seq<char>, Seq<char>)>,
    post: Seq<(Seq<char>, Seq<char>)>,
    key: Seq<char>,
    value: Seq<char>,
    i: int,
)
    requires
        0 <= i < pre.len(),
        pre[i].0 == key,
        forall|j: int| 0 <= j < i ==> (#[trigger] pre[j]).0 != key,
        post == pre.update(i, (key, value)),
    ensures
        lookup(post, key) == Some(value),
        forall|k: Seq<char>| k != key ==> #[trigger] lookup(post, k) == lookup(pre, k),
    decreases i,
{
    assert(post.len() == pre.len());
    if i > 0 {
        assert(post[0] == pre[0]);
        assert(post.drop_first() =~= pre.drop_first().update(i - 1, (key, value)));
        lemma_lookup_update(pre.drop_first(), post.drop_first(), key, value, i - 1);
        assert forall|k: Seq<char>| k != key implies #[trigger] lookup(post, k) == lookup(
            pre,
            k,
        ) by {
            assert(lookup(post.drop_first(), k) == lookup(pre.drop_first(), k));
        }
    } else {
        assert forall|k: Seq<char>| k != key implies #[trigger] lookup(post, k) == lookup(
            pre,
            k,
        ) by {
            assert(post.drop_first() =~= pre.drop_first());
            assert(lookup(post, k) == lookup(post.drop_first(), k));
            assert(lookup(pre, k) == lookup(pre.drop_first(), k));
        }
    }
}

proof fn lemma_lookup_append(pre: Seq<(Seq<char>, Seq<char>)>, key: Seq<char>, value: Seq<char>)
    requires
        forall|j: int| 0 <= j < pre.len() ==> (#[trigger] pre[j]).0 != key,
    ensures
        lookup(pre + seq![(key, value)], key) == Some(value),
        forall|k: Seq<char>|
            k != key ==> #[trigger] lookup(pre + seq![(key, value)], k) == lookup(pre, k),
    decreases pre.len(),
{
    let post = pre + seq![(key, value)];
    if pre.len() == 0 {
        assert(post.len() == 1 && post[0] == (key, value));
        assert forall|k: Seq<char>| k != key implies #[trigger] lookup(post, k) == lookup(
            pre,
            k,
        ) by {
            assert(post.drop_first() =~= Seq::<(Seq<char>, Seq<char>)>::empty());
            assert(lookup(post, k) == lookup(post.drop_first(), k));
            assert(lookup(post.drop_first(), k) is None);
            assert(lookup(pre, k) is None);
        }
    } else {
        assert(post[0] == pre[0]);
        assert(post.drop_first() =~= pre.drop_first() + seq![(key, value)]);
        lemma_lookup_append(pre.drop_first(), key, value);
        assert forall|k: Seq<char>| k != key implies #[trigger] lookup(post, k) == lookup(
            pre,
            k,
        ) by {
            assert(lookup(post.drop_first(), k) == lookup(pre.drop_first(), k));
        }
    }
}

proof fn lemma_lookup_remove(pre: Seq<(Seq<char>, Seq<char>)>, key: Seq<char>, i: int)
    requires
        0 <= i < pre.len(),
        pre[i].0 == key,
        forall|j: int| 0 <= j < pre.len() && j != i ==> (#[trigger] pre[j]).0 != key,
    ensures
        lookup(pre, key) == Some(pre[i].1),
        lookup(pre.remove(i), key) is None,
        forall|k: Seq<char>| k != key ==> #[trigger] lookup(pre.remove(i), k) == lookup(pre, k),
    decreases pre.len(),
{
    lemma_lookup_found(pre, key, i);
    assert forall|j: int| 0 <= j < pre.remove(i).len() implies (#[trigger] pre.remove(i)[j]).0
        != key by {
        let j0: int = if j < i { j } else { j + 1 };
        assert(pre.remove(i)[j] == pre[j0]);
    }
    lemma_lookup_none(pre.remove(i), key);
    if i > 0 {
        assert(pre.remove(i)[0] == pre[0]);
        assert(pre.remove(i).drop_first() =~= pre.drop_first().remove(i - 1));
        lemma_lookup_remove(pre.drop_first(), key, i - 1);
        assert forall|k: Seq<char>| k != key implies #[trigger] lookup(pre.remove(i), k) == lookup(
            pre,
            k,
        ) by {
            assert(lookup(pre.remove(i).drop_first(), k) == lookup(pre.drop_first(), k));
        }
    } else {
        assert(pre.remove(0) =~= pre.drop_first());
        assert forall|k: Seq<char>| k != key implies #[trigger] lookup(pre.remove(i), k) == lookup(
            pre,
            k,
        ) by {
            assert(lookup(pre, k) == lookup(pre.drop_first(), k));
        }
    }
}

// ---------------------------------------------------------------------------
// The executable parser
// ---------------------------------------------------------------------------

/// Why an option string was rejected.
#[derive(Debug, Clone, PartialEq, Eq)]
pub enum ParseError {
    /// A quoted value was expected but the input did not start with a
    /// quote.
    MissingQuote,
    /// A quoted value was not closed before the end of the input.
    UnterminatedQuote,
    /// A backslash escaped something other than a backslash or a quote.
    InvalidEscape,
    /// The given text was left over after the last pair.
    TrailingInput(String),
    /// The given key appeared twice.
    DuplicateKey(String),
}

/// Scans whitespace starting at `from`, giving the position just past it.
fn scan_spaces(s: &str, from: usize) -> (r: usize)
    requires
        from <= s@.len(),
    ensures
        r == from + run_len(s@.skip(from as int), |c: char| is_space_char(c)),
        from <= r <= s@.len(),
{
    let ghost pred = |c: char| is_space_char(c);
    let n = s.unicode_len();
    let mut i = from;
    while i < n && space_char(s.get_char(i))
        invariant
            from <= i <= n,
            n == s@.len(),
            pred == (|c: char| is_space_char(c)),
            forall|j: int| from <= j < i ==> pred(#[trigger] s@[j]),
        decreases n - i,
    {
        i = i + 1;
    }
    proof {
        let t = s@.skip(from as int);
        assert(forall|j: int| 0 <= j < i - from ==> #[trigger] t[j] == s@[j + from]);
        lemma_run_len_is(t, pred, i - from);
    }
    i
}

/// Scans identifier characters starting at `from`.
fn scan_ident_chars(s: &str, from: usize) -> (r: usize)
    requires
        from <= s@.len(),
    ensures
        r == from + run_len(s@.skip(from as int), |c: char| is_ident_char(c)),
        from <= r <= s@.len(),
{
    let ghost pred = |c: char| is_ident_char(c);
    let n = s.unicode_len();
    let mut i = from;
    while i < n && ident_char(s.get_char(i))
        invariant
            from <= i <= n,
            n == s@.len(),
            pred == (|c: char| is_ident_char(c)),
            forall|j: int| from <= j < i ==> pred(#[trigger] s@[j]),
        decreases n - i,
    {
        i = i + 1;
    }
    proof {
        let t = s@.skip(from as int);
        assert(forall|j: int| 0 <= j < i - from ==> #[trigger] t[j] == s@[j + from]);
        lemma_run_len_is(t, pred, i - from);
    }
    i
}

/// Scans unquoted value characters starting at `from`.
fn scan_unquoted_chars(s: &str, from: usize) -> (r: usize)
    requires
        from <= s@.len(),
    ensures
        r == from + run_len(s@.skip(from as int), |c: char| is_unquoted_char(c)),
        from <= r <= s@.len(),
{
    let ghost pred = |c: char| is_unquoted_char(c);
    let n = s.unicode_len();
    let mut i = from;
    while i < n && unquoted_char(s.get_char(i))
        invariant
            from <= i <= n,
            n == s@.len(),
            pred == (|c: char| is_unquoted_char(c)),
            forall|j: int| from <= j < i ==> pred(#[trigger] s@[j]),
        decreases n - i,
    {
        i = i + 1;
    }
    proof {
        let t = s@.skip(from as int);
        assert(forall|j: int| 0 <= j < i - from ==> #[trigger] t[j] == s@[j + from]);
        lemma_run_len_is(t, pred, i - from);
    }
    i
}

/// Scans a quoted value whose body starts at `q0` (just past the opening
/// quote), decoding escapes; gives the position just past the closing quote
/// and the decoded text.
fn scan_quoted(s: &str, q0: usize) -> (r: Result<(usize, String), ParseError>)
    requires
        q0 <= s@.len(),
    ensures
        match parse_quoted_body(s@.skip(q0 as int)) {
            QuotedParse::Closed { used, value } => (match r {
                Ok((end, v)) => end == q0 + used && v@ == value,
                Err(_) => false,
            }),
            QuotedParse::Unterminated => r == Err::<(usize, String), ParseError>(
                ParseError::UnterminatedQuote,
            ),
            QuotedParse::BadEscape => r == Err::<(usize, String), ParseError>(
                ParseError::InvalidEscape,
            ),
        },
{
    let n = s.unicode_len();
    let mut pos = q0;
    let mut acc = String::new();
    loop
        invariant
            q0 <= pos <= n,
            n == s@.len(),
            match parse_quoted_body(s@.skip(pos as int)) {
                QuotedParse::Closed { used, value } => parse_quoted_body(s@.skip(q0 as int))
                    == (QuotedParse::Closed { used: (pos - q0) + used, value: acc@ + value }),
                QuotedParse::Unterminated => parse_quoted_body(s@.skip(q0 as int))
                    is Unterminated,
                QuotedParse::BadEscape => parse_quoted_body(s@.skip(q0 as int)) is BadEscape,
            },
        decreases n - pos,
    {
        if pos >= n {
            return Err(ParseError::UnterminatedQuote);
        }
        let c = s.get_char(pos);
        if c == '"' {
            proof {
                assert(acc@ + Seq::<char>::empty() =~= acc@);
            }
            return Ok((pos + 1, acc));
        } else if c == '\\' {
            if pos + 1 >= n {
                proof {
                    assert(s@.skip(pos as int).len() == 1);
                }
                return Err(ParseError::UnterminatedQuote);
            }
            let c2 = s.get_char(pos + 1);
            if c2 == '\\' || c2 == '"' {
                let ghost acc0 = acc@;
                acc.append(s.substring_char(pos + 1, pos + 2));
                proof {
                    assert(s@.skip(pos as int).skip(2) =~= s@.skip(pos as int + 2));
                    assert(s@.subrange(pos + 1, pos + 2) =~= seq![c2]);
                    assert(acc@ =~= acc0 + seq![c2]);
                    match parse_quoted_body(s@.skip(pos as int + 2)) {
                        QuotedParse::Closed { used, value } => {
                            assert(acc0 + (seq![c2] + value) =~= (acc0 + seq![c2]) + value);
                        },
                        _ => {},
                    }
                }
                pos = pos + 2;
            } else {
                return Err(ParseError::InvalidEscape);
            }
        } else {
            let ghost acc0 = acc@;
            acc.append(s.substring_char(pos, pos + 1));
            proof {
                assert(s@.skip(pos as int).skip(1) =~= s@.skip(pos as int + 1));
                assert(s@.subrange(pos as int, pos + 1) =~= seq![c]);
                assert(acc@ =~= acc0 + seq![c]);
                match parse_quoted_body(s@.skip(pos as int + 1)) {
                    QuotedParse::Closed { used, value } => {
                        assert(acc0 + (seq![c] + value) =~= (acc0 + seq![c]) + value);
                    },
                    _ => {},
                }
            }
            pos = pos + 1;
        }
    }
}

/// Scans a value (quoted or unquoted) starting at `from`.
fn scan_value(s: &str, from: usize) -> (r: Result<Option<(usize, String)>, ParseError>)
    requires
        from <= s@.len(),
    ensures
        match parse_value(s@.skip(from as int)) {
            ValueParse::Found { used, value } => (match r {
                Ok(Some((end, v))) => end == from + used && v@ == value,
                _ => false,
            }),
            ValueParse::Missing => r == Ok::<Option<(usize, String)>, ParseError>(None),
            ValueParse::Unterminated => r == Err::<Option<(usize, String)>, ParseError>(
                ParseError::UnterminatedQuote,
            ),
            ValueParse::BadEscape => r == Err::<Option<(usize, String)>, ParseError>(
                ParseError::InvalidEscape,
            ),
        },
{
    let n = s.unicode_len();
    if from < n && s.get_char(from) == '"' {
        proof {
            assert(s@.skip(from as int).skip(1) =~= s@.skip(from as int + 1));
        }
        match scan_quoted(s, from + 1) {
            Ok((end, v)) => Ok(Some((end, v))),
            Err(e) => Err(e),
        }
    } else {
        let end = scan_unquoted_chars(s, from);
        proof {
            lemma_run_len(s@.skip(from as int), |c: char| is_unquoted_char(c));
        }
        if end == from {
            Ok(None)
        } else {
            let v = s.substring_char(from, end).to_owned();
            proof {
                assert(s@.subrange(from as int, end as int) =~= s@.skip(from as int).take(
                    end - from,
                ));
            }
            Ok(Some((end, v)))
        }
    }
}

/// Scans one `identifier=value` pair starting at `from`; `Ok(None)` means
/// no pair starts there.
fn scan_pair(s: &str, from: usize) -> (r: Result<Option<(usize, String, String)>, ParseError>)
    requires
        from <= s@.len(),
    ensures
        match parse_pair(s@.skip(from as int)) {
            PairParse::Found { used, key, value } => (match r {
                Ok(Some((end, k, v))) => end == from + used && k@ == key && v@ == value,
                _ => false,
            }),
            PairParse::Missing => r == Ok::<Option<(usize, String, String)>, ParseError>(None),
            PairParse::Unterminated => r == Err::<Option<(usize, String, String)>, ParseError>(
                ParseError::UnterminatedQuote,
            ),
            PairParse::BadEscape => r == Err::<Option<(usize, String, String)>, ParseError>(
                ParseError::InvalidEscape,
            ),
        },
{
    let ghost t = s@.skip(from as int);
    let n = s.unicode_len();
    if from >= n {
        return Ok(None);
    }
    let c0 = s.get_char(from);
    assert(c0 == t[0]);
    if !ident_start_char(c0) {
        return Ok(None);
    }
    let k_end = scan_ident_chars(s, from + 1);
    proof {
        assert(s@.skip(from as int + 1) =~= t.skip(1));
        lemma_run_len(t.skip(1), |c: char| is_ident_char(c));
    }
    let ghost k = 1 + run_len(t.skip(1), |c: char| is_ident_char(c));
    assert(k_end == from + k);
    if k_end >= n {
        return Ok(None);
    }
    if s.get_char(k_end) != '=' {
        assert(t[k] == s@[k_end as int]);
        return Ok(None);
    }
    assert(t[k] == '=');
    let key = s.substring_char(from, k_end).to_owned();
    proof {
        assert(s@.subrange(from as int, k_end as int) =~= t.take(k));
        assert(s@.skip(k_end as int + 1) =~= t.skip(k + 1));
    }
    match scan_value(s, k_end + 1) {
        Ok(Some((end, v))) => Ok(Some((end, key, v))),
        Ok(None) => Ok(None),
        Err(e) => Err(e),
    }
}

/// The outcome at `pos`, with `acc` already parsed, determines the outcome
/// of the whole configuration.
spec fn config_continues(s: Seq<char>, pos: int, acc: Seq<(Seq<char>, Seq<char>)>) -> bool {
    match parse_more_pairs(s.skip(pos)) {
        ListParse::Pairs { used, pairs } => parse_config(s) == (ListParse::Pairs {
            used: pos + used,
            pairs: acc + pairs,
        }),
        ListParse::Unterminated => parse_config(s) is Unterminated,
        ListParse::BadEscape => parse_config(s) is BadEscape,
    }
}

/// Parses an option string: whitespace-separated `identifier=value` pairs,
/// wholly consumed, with distinct keys. An empty input yields an empty map.
pub fn parse_options(conf: &str) -> (r: Result<Options, ParseError>)
    ensures
        match spec_parse_options(conf@) {
            ParsedOptions::Parsed { pairs } => (match r {
                Ok(m) => m.pairs() == pairs && m.wf(),
                Err(_) => false,
            }),
            ParsedOptions::Unterminated => r == Err::<Options, ParseError>(
                ParseError::UnterminatedQuote,
            ),
            ParsedOptions::BadEscape => r == Err::<Options, ParseError>(ParseError::InvalidEscape),
            ParsedOptions::Trailing { rest } => (match r {
                Err(ParseError::TrailingInput(x)) => x@ == rest,
                _ => false,
            }),
            ParsedOptions::Duplicate { key } => (match r {
                Err(ParseError::DuplicateKey(k)) => k@ == key,
                _ => false,
            }),
        },
{
    let n = conf.unicode_len();
    let mut vec: Vec<(String, String)> = Vec::new();
    let mut pos: usize = 0;
    proof {
        assert(conf@.skip(0) =~= conf@);
    }
    match scan_pair(conf, 0) {
        Err(e) => {
            return Err(e);
        },
        Ok(None) => {
            proof {
                assert(pairs_of(vec@) =~= Seq::<(Seq<char>, Seq<char>)>::empty());
            }
        },
        Ok(Some((end, k, v))) => {
            proof {
                lemma_parse_pair_bounds(conf@);
            }
            vec.push((k, v));
            pos = end;
            proof {
                assert(pairs_of(vec@) =~= seq![(k@, v@)]);
                match parse_more_pairs(conf@.skip(pos as int)) {
                    ListParse::Pairs { used, pairs } => {
                        assert(seq![(k@, v@)] + pairs =~= pairs_of(vec@) + pairs);
                    },
                    _ => {},
                }
            }
            loop
                invariant_except_break
                    pos <= n,
                    n == conf@.len(),
                    config_continues(conf@, pos as int, pairs_of(vec@)),
                ensures
                    pos <= n,
                    n == conf@.len(),
                    parse_config(conf@) == (ListParse::Pairs {
                        used: pos as int,
                        pairs: pairs_of(vec@),
                    }),
                decreases n - pos,
            {
                let w_end = scan_spaces(conf, pos);
                if w_end == pos {
                    proof {
                        assert(pairs_of(vec@) + Seq::<(Seq<char>, Seq<char>)>::empty() =~= pairs_of(
                            vec@,
                        ));
                    }
                    break ;
                }
                proof {
                    assert(conf@.skip(pos as int).skip(w_end - pos) =~= conf@.skip(w_end as int));
                }
                match scan_pair(conf, w_end) {
                    Err(e) => {
                        return Err(e);
                    },
                    Ok(None) => {
                        proof {
                            assert(pairs_of(vec@) + Seq::<(Seq<char>, Seq<char>)>::empty()
                                =~= pairs_of(vec@));
                        }
                        break ;
                    },
                    Ok(Some((end2, k2, v2))) => {
                        let ghost acc0 = pairs_of(vec@);
                        proof {
                            lemma_parse_pair_bounds(conf@.skip(w_end as int));
                        }
                        vec.push((k2, v2));
                        proof {
                            assert(pairs_of(vec@) =~= acc0 + seq![(k2@, v2@)]);
                            assert(conf@.skip(pos as int).skip(end2 - pos) =~= conf@.skip(
                                end2 as int,
                            ));
                            match parse_more_pairs(conf@.skip(end2 as int)) {
                                ListParse::Pairs { used, pairs } => {
                                    assert(acc0 + (seq![(k2@, v2@)] + pairs) =~= (acc0 + seq![
                                        (k2@, v2@),
                                    ]) + pairs);
                                },
                                _ => {},
                            }
                        }
                        pos = end2;
                    },
                }
            }
        },
    }
    assert(parse_config(conf@) == (ListParse::Pairs { used: pos as int, pairs: pairs_of(vec@) }));
    let t_end = scan_spaces(conf, pos);
    if t_end < n {
        let rest = conf.substring_char(t_end, n).to_owned();
        proof {
            assert(conf@.subrange(t_end as int, n as int) =~= conf@.skip(t_end as int));
        }
        return Err(ParseError::TrailingInput(rest));
    }
    let ghost gpairs = pairs_of(vec@);
    let ghost goal = (match first_dup_key(gpairs) {
        Some(key) => ParsedOptions::Duplicate { key },
        None => ParsedOptions::Parsed { pairs: gpairs },
    });
    assert(spec_parse_options(conf@) == goal);
    let m = vec.len();
    for j in 0..m
        invariant
            m == vec@.len(),
            gpairs == pairs_of(vec@),
            gpairs.len() == m,
            spec_parse_options(conf@) == goal,
            goal == (match first_dup_key(gpairs) {
                Some(key) => ParsedOptions::Duplicate { key },
                None => ParsedOptions::Parsed { pairs: gpairs },
            }),
            first_dup_key(gpairs) == first_dup_key_from(gpairs, j as int),
            forall|a: int, b: int|
                0 <= a < b < j ==> (#[trigger] gpairs[a]).0 != (#[trigger] gpairs[b]).0,
    {
        for i in 0..j
            invariant
                m == vec@.len(),
                j < m,
                gpairs == pairs_of(vec@),
                gpairs.len() == m,
                spec_parse_options(conf@) == goal,
                goal == (match first_dup_key(gpairs) {
                    Some(key) => ParsedOptions::Duplicate { key },
                    None => ParsedOptions::Parsed { pairs: gpairs },
                }),
                first_dup_key(gpairs) == first_dup_key_from(gpairs, j as int),
                forall|ii: int| 0 <= ii < i ==> (#[trigger] gpairs[ii]).0 != gpairs[j as int].0,
        {
            if str_eq(vec[i].0.as_str(), vec[j].0.as_str()) {
                proof {
                    assert(gpairs[i as int].0 == gpairs[j as int].0);
                    assert(first_dup_key_from(gpairs, j as int) == Some(gpairs[j as int].0));
                }
                return Err(ParseError::DuplicateKey(vec[j].0.clone()));
            }
        }
    }
    proof {
        assert(first_dup_key_from(gpairs, m as int) is None);
        assert(forall|a: int, b: int|
            0 <= a < b < gpairs.len() ==> (#[trigger] gpairs[a]).0 != (#[trigger] gpairs[b]).0);
    }
    Ok(Options { entries: vec })
}

// ---------------------------------------------------------------------------
// Rendering a map back to an option string, and the round trip
// ---------------------------------------------------------------------------

/// Escapes a value for quoting: a backslash before each backslash or quote.
pub open spec fn escape_value(v: Seq<char>) -> Seq<char>
    decreases v.len(),
{
    if v.len() == 0 {
        Seq::empty()
    } else if v[0] == '\\' || v[0] == '"' {
        seq!['\\', v[0]] + escape_value(v.drop_first())
    } else {
        seq![v[0]] + escape_value(v.drop_first())
    }
}

/// One rendered pair: `key="escaped value"`.
pub open spec fn render_pair(k: Seq<char>, v: Seq<char>) -> Seq<char> {
    k + seq!['='] + seq!['"'] + escape_value(v) + seq!['"']
}

/// A whole rendered pair list, space-separated.
pub open spec fn render_pairs(pairs: Seq<(Seq<char>, Seq<char>)>) -> Seq<char>
    decreases pairs.len(),
{
    if pairs.len() == 0 {
        Seq::empty()
    } else if pairs.len() == 1 {
        render_pair(pairs[0].0, pairs[0].1)
    } else {
        render_pair(pairs[0].0, pairs[0].1) + seq![' '] + render_pairs(pairs.drop_first())
    }
}

proof fn lemma_escape_value_parses(v: Seq<char>, rest: Seq<char>)
    ensures
        parse_quoted_body(escape_value(v) + seq!['"'] + rest) == (QuotedParse::Closed {
            used: escape_value(v).len() + 1int,
            value: v,
        }),
    decreases v.len(),
{
    let s = escape_value(v) + seq!['"'] + rest;
    if v.len() == 0 {
        assert(s =~= seq!['"'] + rest);
        assert(s[0] == '"');
        assert(v =~= Seq::<char>::empty());
    } else if v[0] == '\\' || v[0] == '"' {
        assert(s[0] == '\\');
        assert(s[1] == v[0]);
        lemma_escape_value_parses(v.drop_first(), rest);
        assert(s.skip(2) =~= escape_value(v.drop_first()) + seq!['"'] + rest);
        assert(seq![s[1]] + v.drop_first() =~= v);
    } else {
        assert(s[0] == v[0]);
        assert(s[0] != '"' && s[0] != '\\');
        lemma_escape_value_parses(v.drop_first(), rest);
        assert(s.skip(1) =~= escape_value(v.drop_first()) + seq!['"'] + rest);
        assert(seq![s[0]] + v.drop_first() =~= v);
    }
}

proof fn lemma_render_pair_parses(k: Seq<char>, v: Seq<char>, rest: Seq<char>)
    requires
        is_ident(k),
        rest.len() == 0 || rest[0] == ' ',
    ensures
        parse_pair(render_pair(k, v) + rest) == (PairParse::Found {
            used: render_pair(k, v).len() as int,
            key: k,
            value: v,
        }),
{
    let s = render_pair(k, v) + rest;
    let kl = k.len() as int;
    assert(forall|i: int| 0 <= i < kl ==> s[i] == k[i]);
    assert(s[kl] == '=');
    assert(is_ident_start_char(s[0]));
    assert(forall|i: int| 0 <= i < kl - 1 ==> #[trigger] s.skip(1)[i] == k[i + 1]);
    lemma_run_len_is(s.skip(1), |c: char| is_ident_char(c), kl - 1);
    assert(s.take(kl) =~= k);
    let after = s.skip(kl + 1);
    assert(after[0] == '"');
    assert(after.skip(1) =~= escape_value(v) + seq!['"'] + rest);
    lemma_escape_value_parses(v, rest);
    assert(parse_value(after) == (ValueParse::Found {
        used: escape_value(v).len() + 2int,
        value: v,
    }));
}

proof fn lemma_first_dup_none(pairs: Seq<(Seq<char>, Seq<char>)>, j: int)
    requires
        forall|a: int, b: int|
            0 <= a < b < pairs.len() ==> (#[trigger] pairs[a]).0 != (#[trigger] pairs[b]).0,
        0 <= j,
    ensures
        first_dup_key_from(pairs, j) is None,
    decreases pairs.len() - j,
{
    if j < pairs.len() {
        lemma_first_dup_none(pairs, j + 1);
    }
}

/// Parsing the space-prefixed rendering of a nonempty tail.
spec fn sep_render(pairs: Seq<(Seq<char>, Seq<char>)>) -> Seq<char> {
    if pairs.len() == 0 {
        Seq::empty()
    } else {
        seq![' '] + render_pairs(pairs)
    }
}

proof fn lemma_render_pairs_head(pairs: Seq<(Seq<char>, Seq<char>)>)
    requires
        pairs.len() > 0,
    ensures
        render_pairs(pairs) =~= render_pair(pairs[0].0, pairs[0].1) + sep_render(
            pairs.drop_first(),
        ),
{
}

proof fn lemma_sep_render_parses(pairs: Seq<(Seq<char>, Seq<char>)>)
    requires
        forall|i: int| 0 <= i < pairs.len() ==> is_ident((#[trigger] pairs[i]).0),
    ensures
        parse_more_pairs(sep_render(pairs)) == (ListParse::Pairs {
            used: sep_render(pairs).len() as int,
            pairs: pairs,
        }),
    decreases pairs.len(),
{
    let s = sep_render(pairs);
    if pairs.len() == 0 {
        assert(s =~= Seq::<char>::empty());
        assert(run_len(s, |c: char| is_space_char(c)) == 0);
        assert(pairs =~= Seq::<(Seq<char>, Seq<char>)>::empty());
    } else {
        let k = pairs[0].0;
        let v = pairs[0].1;
        let tail = pairs.drop_first();
        lemma_render_pairs_head(pairs);
        assert(s =~= seq![' '] + render_pair(k, v) + sep_render(tail));
        assert(s[0] == ' ');
        assert(s[1] == k[0]);
        assert(!is_space_char(s[1]));
        lemma_run_len_is(s, |c: char| is_space_char(c), 1);
        assert(s.skip(1) =~= render_pair(k, v) + sep_render(tail));
        assert(sep_render(tail).len() == 0 || sep_render(tail)[0] == ' ');
        lemma_render_pair_parses(k, v, sep_render(tail));
        lemma_sep_render_parses(tail);
        let used = render_pair(k, v).len() as int;
        assert(s.skip(1 + used) =~= sep_render(tail));
        assert(seq![(k, v)] + tail =~= pairs);
    }
}

/// A well-formed pair list, rendered as `key="value"` pairs with escaping,
/// parses back to exactly the same list.
pub proof fn lemma_render_round_trip(pairs: Seq<(Seq<char>, Seq<char>)>)
    requires
        forall|i: int| 0 <= i < pairs.len() ==> is_ident((#[trigger] pairs[i]).0),
        forall|a: int, b: int|
            0 <= a < b < pairs.len() ==> (#[trigger] pairs[a]).0 != (#[trigger] pairs[b]).0,
    ensures
        spec_parse_options(render_pairs(pairs)) == (ParsedOptions::Parsed { pairs }),
{
    let s = render_pairs(pairs);
    if pairs.len() == 0 {
        assert(s =~= Seq::<char>::empty());
        assert(parse_pair(s) is Missing);
        assert(parse_config(s) == (ListParse::Pairs {
            used: 0,
            pairs: Seq::<(Seq<char>, Seq<char>)>::empty(),
        }));
        assert(run_len(s.skip(0), |c: char| is_space_char(c)) == 0);
        assert(pairs =~= Seq::<(Seq<char>, Seq<char>)>::empty());
        lemma_first_dup_none(pairs, 0);
    } else {
        let k = pairs[0].0;
        let v = pairs[0].1;
        let tail = pairs.drop_first();
        lemma_render_pairs_head(pairs);
        assert(s =~= render_pair(k, v) + sep_render(tail));
        lemma_render_pair_parses(k, v, sep_render(tail));
        lemma_sep_render_parses(tail);
        let used = render_pair(k, v).len() as int;
        assert(s.skip(used) =~= sep_render(tail));
        assert(seq![(k, v)] + tail =~= pairs);
        assert(parse_config(s) == (ListParse::Pairs { used: s.len() as int, pairs }));
        assert(s.skip(s.len() as int) =~= Seq::<char>::empty());
        assert(run_len(s.skip(s.len() as int), |c: char| is_space_char(c)) == 0);
        lemma_first_dup_none(pairs, 0);
    }
}

/// The escaping of one character.
pub open spec fn escape_char(c: char) -> Seq<char> {
    if c == '\\' || c == '"' {
        seq!['\\', c]
    } else {
        seq![c]
    }
}

proof fn lemma_escape_value_append(a: Seq<char>, c: char)
    ensures
        escape_value(a + seq![c]) =~= escape_value(a) + escape_char(c),
    decreases a.len(),
{
    if a.len() == 0 {
        assert(a + seq![c] =~= seq![c]);
        assert((seq![c]).drop_first() =~= Seq::<char>::empty());
        assert(escape_value(Seq::<char>::empty()) =~= Seq::<char>::empty());
        assert(seq!['\\', c] + Seq::<char>::empty() =~= seq!['\\', c]);
        assert(seq![c] + Seq::<char>::empty() =~= seq![c]);
        assert(escape_value(seq![c]) =~= escape_char(c));
        assert(escape_value(a) =~= Seq::<char>::empty());
        assert(escape_value(a) + escape_char(c) =~= escape_char(c));
    } else {
        assert((a + seq![c]).drop_first() =~= a.drop_first() + seq![c]);
        lemma_escape_value_append(a.drop_first(), c);
        assert((a + seq![c])[0] == a[0]);
        let h = if a[0] == '\\' || a[0] == '"' {
            seq!['\\', a[0]]
        } else {
            seq![a[0]]
        };
        assert(escape_value(a + seq![c]) =~= h + (escape_value(a.drop_first()) + escape_char(c)));
        assert(escape_value(a) =~= h + escape_value(a.drop_first()));
        assert(h + (escape_value(a.drop_first()) + escape_char(c)) =~= (h + escape_value(
            a.drop_first(),
        )) + escape_char(c));
    }
}

proof fn lemma_render_pairs_append(a: Seq<(Seq<char>, Seq<char>)>, p: (Seq<char>, Seq<char>))
    ensures
        render_pairs(a + seq![p]) =~= if a.len() == 0 {
            render_pair(p.0, p.1)
        } else {
            render_pairs(a) + seq![' '] + render_pair(p.0, p.1)
        },
    decreases a.len(),
{
    let w = a + seq![p];
    if a.len() == 0 {
        assert(w =~= seq![p]);
    } else {
        assert(w.drop_first() =~= a.drop_first() + seq![p]);
        lemma_render_pairs_append(a.drop_first(), p);
        if a.len() == 1 {
            assert(a.drop_first() =~= Seq::<(Seq<char>, Seq<char>)>::empty());
        }
    }
}

impl Options {
    /// Writes the map back out as an option string, every value quoted and
    /// escaped. Parsing the result gives the same map back (see
    /// `lemma_render_round_trip`).
    pub fn render(&self) -> (r: String)
        ensures
            r@ == render_pairs(self.pairs()),
    {
        let mut out = String::new();
        let n = self.entries.len();
        proof {
            assert(self.pairs().take(0) =~= Seq::<(Seq<char>, Seq<char>)>::empty());
        }
        for i in 0..n
            invariant
                n == self.spec_len(),
                out@ == render_pairs(self.pairs().take(i as int)),
        {
            let ghost gpairs = self.pairs();
            let ghost start = out@;
            if i > 0 {
                out.append(" ");
                proof {
                    reveal_strlit(" ");
                }
            }
            out.append(self.entries[i].0.as_str());
            out.append("=");
            out.append("\"");
            proof {
                reveal_strlit("=");
                reveal_strlit("\"");
            }
            let ghost k = gpairs[i as int].0;
            let ghost v = gpairs[i as int].1;
            let ghost base = out@;
            assert(base =~= start + (if i > 0 {
                seq![' ']
            } else {
                Seq::<char>::empty()
            }) + k + seq!['='] + seq!['"']);
            let vs = self.entries[i].1.as_str();
            let vn = vs.unicode_len();
            proof {
                assert(v.take(0) =~= Seq::<char>::empty());
                assert(escape_value(Seq::<char>::empty()) =~= Seq::<char>::empty());
                assert(base + Seq::<char>::empty() =~= base);
            }
            for jx in 0..vn
                invariant
                    vn == v.len(),
                    vs@ == v,
                    out@ == base + escape_value(v.take(jx as int)),
            {
                let c = vs.get_char(jx);
                if c == '\\' || c == '"' {
                    out.append("\\");
                    proof {
                        reveal_strlit("\\");
                    }
                }
                out.append(vs.substring_char(jx, jx + 1));
                proof {
                    assert(v.subrange(jx as int, jx + 1) =~= seq![c]);
                    lemma_escape_value_append(v.take(jx as int), c);
                    assert(v.take(jx as int) + seq![c] =~= v.take(jx + 1));
                    assert(base + escape_value(v.take(jx as int)) + escape_char(c) =~= base
                        + (escape_value(v.take(jx as int)) + escape_char(c)));
                }
            }
            out.append("\"");
            proof {
                assert(v.take(vn as int) =~= v);
                lemma_render_pairs_append(gpairs.take(i as int), (k, v));
                assert(gpairs.take(i as int) + seq![(k, v)] =~= gpairs.take(i + 1));
                assert(out@ =~= base + escape_value(v) + seq!['"']);
                if i > 0 {
                    assert(out@ =~= start + seq![' '] + render_pair(k, v));
                } else {
                    assert(start =~= Seq::<char>::empty());
                    assert(out@ =~= render_pair(k, v));
                }
            }
        }
        proof {
            assert(self.pairs().take(n as int) =~= self.pairs());
        }
        out
    }
}

/// Parses a quoted value standing at the start of the input, giving the
/// rest of the input and the decoded text.
pub fn quoted_string(i: &str) -> (r: Result<(&str, String), ParseError>)
    ensures
        ({
            if i@.len() == 0 || i@[0] != '"' {
                r == Err::<(&str, String), ParseError>(ParseError::MissingQuote)
            } else {
                match parse_quoted_body(i@.skip(1)) {
                    QuotedParse::Closed { used, value } => (match r {
                        Ok((rest, v)) => rest@ == i@.skip(1 + used) && v@ == value,
                        Err(_) => false,
                    }),
                    QuotedParse::Unterminated => r == Err::<(&str, String), ParseError>(
                        ParseError::UnterminatedQuote,
                    ),
                    QuotedParse::BadEscape => r == Err::<(&str, String), ParseError>(
                        ParseError::InvalidEscape,
                    ),
                }
            }
        }),
{
    let n = i.unicode_len();
    if n == 0 || i.get_char(0) != '"' {
        return Err(ParseError::MissingQuote);
    }
    match scan_quoted(i, 1) {
        Ok((end, v)) => {
            proof {
                lemma_parse_quoted_body_bounds(i@.skip(1));
            }
            let rest = i.substring_char(end, n);
            proof {
                assert(i@.subrange(end as int, n as int) =~= i@.skip(end as int));
            }
            Ok((rest, v))
        },
        Err(e) => Err(e),
    }
}

proof fn lemma_first_dup_none_distinct(pairs: Seq<(Seq<char>, Seq<char>)>, j: int)
    requires
        0 <= j,
        first_dup_key_from(pairs, j) is None,
    ensures
        forall|a: int, b: int|
            0 <= a < b < pairs.len() && j <= b ==> (#[trigger] pairs[a]).0 != (
            #[trigger] pairs[b]).0,
    decreases pairs.len() - j,
{
    if j < pairs.len() {
        lemma_first_dup_none_distinct(pairs, j + 1);
    }
}

proof fn lemma_more_pairs_keys_are_idents(s: Seq<char>)
    requires
        parse_more_pairs(s) is Pairs,
    ensures
        forall|i: int|
            0 <= i < parse_more_pairs(s)->Pairs_pairs.len() ==> is_ident(
                (#[trigger] parse_more_pairs(s)->Pairs_pairs[i]).0,
            ),
    decreases s.len(),
{
    let w = run_len(s, |c: char| is_space_char(c));
    lemma_run_len(s, |c: char| is_space_char(c));
    if w != 0 {
        match parse_pair(s.skip(w)) {
            PairParse::Found { used, key, value } => {
                lemma_parse_pair_bounds(s.skip(w));
                lemma_more_pairs_keys_are_idents(s.skip(w + used));
                let rest = parse_more_pairs(s.skip(w + used))->Pairs_pairs;
                let whole = parse_more_pairs(s)->Pairs_pairs;
                assert(whole == seq![(key, value)] + rest);
                assert forall|i: int| 0 <= i < whole.len() implies is_ident(
                    (#[trigger] whole[i]).0,
                ) by {
                    if i >= 1 {
                        assert(whole[i] == rest[i - 1]);
                    }
                }
            },
            _ => {},
        }
    }
}

/// Every key of a successfully parsed option string is an identifier, and
/// the keys are pairwise distinct.
pub proof fn lemma_parsed_options_well_formed(s: Seq<char>)
    requires
        spec_parse_options(s) is Parsed,
    ensures
        forall|i: int|
            0 <= i < spec_parse_options(s)->Parsed_pairs.len() ==> is_ident(
                (#[trigger] spec_parse_options(s)->Parsed_pairs[i]).0,
            ),
        forall|a: int, b: int|
            0 <= a < b < spec_parse_options(s)->Parsed_pairs.len() ==> (
            #[trigger] spec_parse_options(s)->Parsed_pairs[a]).0 != (
            #[trigger] spec_parse_options(s)->Parsed_pairs[b]).0,
{
    let pairs = spec_parse_options(s)->Parsed_pairs;
    lemma_first_dup_none_distinct(pairs, 0);
    match parse_pair(s) {
        PairParse::Found { used, key, value } => {
            lemma_parse_pair_bounds(s);
            lemma_more_pairs_keys_are_idents(s.skip(used));
            let rest = parse_more_pairs(s.skip(used))->Pairs_pairs;
            assert(pairs == seq![(key, value)] + rest);
            assert forall|i: int| 0 <= i < pairs.len() implies is_ident(
                (#[trigger] pairs[i]).0,
            ) by {
                if i >= 1 {
                    assert(pairs[i] == rest[i - 1]);
                }
            }
        },
        _ => {},
    }
}

/// The full round trip: whatever a successful parse yields, rendering it
/// and parsing again yields exactly the same map.
pub proof fn lemma_parse_render_round_trip(s: Seq<char>)
    requires
        spec_parse_options(s) is Parsed,
    ensures
        spec_parse_options(render_pairs(spec_parse_options(s)->Parsed_pairs)) == spec_parse_options(
            s,
        ),
{
    lemma_parsed_options_well_formed(s);
    lemma_render_round_trip(spec_parse_options(s)->Parsed_pairs);
}

} // verus!
