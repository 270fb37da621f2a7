//! The bearer tokens of the status surface: a set of texts, kept in order,
//! read from and written to a file of one token on a line.

use crate::text::{chars_of, string_of};
use vstd::prelude::*;
use vstd::string::*;

verus! {

/// `fastrand::alphanumeric`: some character among a-z, A-Z and 0-9.
pub assume_specification[ fastrand::alphanumeric ]() -> (c: char)
    ensures
        is_token_char(c),
;

/// The characters that a made token holds: the letters and digits of ASCII.
pub open spec fn is_token_char(c: char) -> bool {
    ('a' <= c && c <= 'z') || ('A' <= c && c <= 'Z') || ('0' <= c && c <= '9')
}

/// Whether `a` comes before `b` in the order of tokens: character by
/// character, a text before each of its extensions.
pub open spec fn comes_before(a: Seq<char>, b: Seq<char>) -> bool
    decreases a.len(),
{
    if b.len() == 0 {
        false
    } else if a.len() == 0 {
        true
    } else if a[0] != b[0] {
        a[0] < b[0]
    } else {
        comes_before(a.skip(1), b.skip(1))
    }
}

/// Whether a list of texts is in order with nothing twice.
pub open spec fn ascending(list: Seq<Seq<char>>) -> bool {
    forall|i: int, j: int| 0 <= i < j < list.len() ==> comes_before(list[i], list[j])
}

/// The order of tokens is strict: nothing comes before itself.
pub proof fn lemma_order_irreflexive(a: Seq<char>)
    ensures
        !comes_before(a, a),
    decreases a.len(),
{
    if a.len() > 0 {
        lemma_order_irreflexive(a.skip(1));
    }
}

/// The order of tokens is total: of two different texts one comes before
/// the other.
pub proof fn lemma_order_total(a: Seq<char>, b: Seq<char>)
    ensures
        a == b || comes_before(a, b) || comes_before(b, a),
    decreases a.len(),
{
    if a.len() > 0 && b.len() > 0 && a[0] == b[0] {
        lemma_order_total(a.skip(1), b.skip(1));
        if a.skip(1) == b.skip(1) {
            assert(a =~= seq![a[0]] + a.skip(1));
            assert(b =~= seq![b[0]] + b.skip(1));
        }
    } else if a.len() == 0 && b.len() == 0 {
        assert(a =~= b);
    }
}

/// The order of tokens is transitive.
pub proof fn lemma_order_transitive(a: Seq<char>, b: Seq<char>, c: Seq<char>)
    requires
        comes_before(a, b),
        comes_before(b, c),
    ensures
        comes_before(a, c),
    decreases a.len(),
{
    if a.len() > 0 && b.len() > 0 && c.len() > 0 && a[0] == b[0] && b[0] == c[0] {
        lemma_order_transitive(a.skip(1), b.skip(1), c.skip(1));
    }
}

/// Whether `a` comes before `b` in the order of tokens.
pub fn is_before(a: &Vec<char>, b: &Vec<char>) -> (r: bool)
    ensures
        r == comes_before(a@, b@),
{
    let mut i: usize = 0;
    assert(a@.skip(0) == a@ && b@.skip(0) == b@);
    while i < a.len() && i < b.len()
        invariant
            i <= a.len(),
            i <= b.len(),
            comes_before(a@, b@) == comes_before(a@.skip(i as int), b@.skip(i as int)),
        decreases a.len() - i,
    {
        if a[i] != b[i] {
            return a[i] < b[i];
        }
        assert(a@.skip(i as int).skip(1) == a@.skip(i + 1));
        assert(b@.skip(i as int).skip(1) == b@.skip(i + 1));
        i = i + 1;
    }
    i < b.len()
}

/// A text of `num` characters, each drawn at random from the letters and
/// digits of ASCII.
pub fn random_string(num: usize) -> (r: String)
    ensures
        r@.len() == num,
        forall|i: int| 0 <= i < r@.len() ==> is_token_char(#[trigger] r@[i]),
{
    let mut out = String::new();
    let mut i: usize = 0;
    while i < num
        invariant
            i <= num,
            out@.len() == i,
            forall|k: int| 0 <= k < out@.len() ==> is_token_char(#[trigger] out@[k]),
        decreases num - i,
    {
        out.push(fastrand::alphanumeric());
        i = i + 1;
    }
    out
}

/// The texts of a list of strings.
pub open spec fn texts(list: Seq<String>) -> Seq<Seq<char>> {
    list.map_values(|s: String| s@)
}

/// The number of characters of `s` before its first line feed.
pub open spec fn line_len(s: Seq<char>) -> nat
    decreases s.len(),
{
    if s.len() == 0 || s[0] == '\n' {
        0
    } else {
        1 + line_len(s.skip(1))
    }
}

/// `line` without a carriage return at its end.
pub open spec fn without_return(line: Seq<char>) -> Seq<char> {
    if line.len() > 0 && line.last() == '\r' {
        line.drop_last()
    } else {
        line
    }
}

/// The lines of a text: what stands before each of its line feeds, without
/// a carriage return just before the line feed, and what stands after the
/// last line feed, if anything does.
pub open spec fn lines_of(s: Seq<char>) -> Seq<Seq<char>>
    decreases s.len(),
{
    if s.len() == 0 {
        Seq::empty()
    } else {
        let n = line_len(s);
        if n < s.len() {
            seq![without_return(s.take(n as int))] + lines_of(s.skip(n as int + 1))
        } else {
            seq![s]
        }
    }
}

/// The lines of a list that are not empty, as a set.
pub open spec fn filled(lines: Seq<Seq<char>>) -> Set<Seq<char>> {
    Set::new(|t: Seq<char>| t.len() > 0 && lines.contains(t))
}

/// The tokens that a file holds: its lines that are not empty.
pub open spec fn stored_tokens(content: Seq<char>) -> Set<Seq<char>> {
    filled(lines_of(content))
}

/// The texts of a list, one on a line: a line feed between each two.
pub open spec fn joined(lines: Seq<Seq<char>>) -> Seq<char>
    decreases lines.len(),
{
    if lines.len() == 0 {
        Seq::empty()
    } else if lines.len() == 1 {
        lines[0]
    } else {
        joined(lines.drop_last()) + seq!['\n'] + lines.last()
    }
}

/// A stretch of text without a line feed, ending at the end of the text or
/// before a line feed, is the first line.
pub proof fn lemma_line_len(s: Seq<char>, n: nat)
    requires
        n <= s.len(),
        forall|k: int| 0 <= k < n ==> s[k] != '\n',
        n == s.len() || s[n as int] == '\n',
    ensures
        line_len(s) == n,
    decreases n,
{
    if n > 0 {
        lemma_line_len(s.skip(1), (n - 1) as nat);
    }
}

/// Whether a token can be stored and read back wherever it stands in the
/// file: it is not empty, holds no line feed, and does not end in a
/// carriage return.
pub open spec fn storable(token: Seq<char>) -> bool {
    token.len() > 0 && !token.contains('\n') && token.last() != '\r'
}

/// One text before others, one on a line, is that text, a line feed, and
/// the others one on a line.
pub proof fn lemma_joined_prepend(first: Seq<char>, rest: Seq<Seq<char>>)
    requires
        rest.len() > 0,
    ensures
        joined(seq![first] + rest) == first + seq!['\n'] + joined(rest),
    decreases rest.len(),
{
    let all = seq![first] + rest;
    assert(all.drop_last() == seq![first] + rest.drop_last());
    assert(all.last() == rest.last());
    if rest.len() == 1 {
        assert(all.drop_last() == seq![first]);
        assert(joined(all.drop_last()) == first);
        assert(joined(rest) == rest.last());
    } else {
        lemma_joined_prepend(first, rest.drop_last());
        assert(first + seq!['\n'] + joined(rest.drop_last()) + seq!['\n'] + rest.last() == first
            + seq!['\n'] + (joined(rest.drop_last()) + seq!['\n'] + rest.last()));
    }
}

/// Tokens that can be stored, written one on a line, are the lines of what
/// was written.
pub proof fn lemma_lines_of_joined(tokens: Seq<Seq<char>>)
    requires
        forall|i: int| 0 <= i < tokens.len() ==> storable(#[trigger] tokens[i]),
    ensures
        lines_of(joined(tokens)) == tokens,
    decreases tokens.len(),
{
    if tokens.len() == 0 {
    } else {
        let first = tokens[0];
        assert(storable(first));
        assert forall|k: int| 0 <= k < first.len() implies first[k] != '\n' by {
            if first[k] == '\n' {
                assert(first.contains('\n'));
            }
        }
        if tokens.len() == 1 {
            let s = joined(tokens);
            assert(s == first);
            lemma_line_len(s, s.len());
            assert(tokens == seq![first]);
        } else {
            let rest = tokens.skip(1);
            assert(tokens == seq![first] + rest);
            lemma_joined_prepend(first, rest);
            let s = joined(tokens);
            let n = first.len();
            assert(s == first + seq!['\n'] + joined(rest));
            assert(s[n as int] == '\n');
            assert forall|k: int| 0 <= k < n implies s[k] != '\n' by {
                assert(s[k] == first[k]);
            }
            lemma_line_len(s, n);
            assert(s.take(n as int) == first);
            assert(s.skip(n as int + 1) == joined(rest));
            assert forall|i: int| 0 <= i < rest.len() implies storable(#[trigger] rest[i]) by {
                assert(rest[i] == tokens[i + 1]);
            }
            lemma_lines_of_joined(rest);
        }
    }
}

/// What is stored reads back: the tokens of a file that holds tokens one
/// on a line are those tokens, as long as each can be stored.
pub proof fn lemma_stored_tokens_read_back(tokens: Seq<Seq<char>>)
    requires
        forall|i: int| 0 <= i < tokens.len() ==> storable(#[trigger] tokens[i]),
    ensures
        stored_tokens(joined(tokens)) == tokens.to_set(),
{
    lemma_lines_of_joined(tokens);
    assert forall|t: Seq<char>| stored_tokens(joined(tokens)).contains(t) <==> tokens.to_set().contains(
        t,
    ) by {
        if tokens.contains(t) {
            let i = choose|i: int| 0 <= i < tokens.len() && tokens[i] == t;
            assert(storable(tokens[i]));
        }
    }
    assert(stored_tokens(joined(tokens)) =~= tokens.to_set());
}

/// A token made of letters and digits can be stored, if it is not empty.
pub proof fn lemma_made_tokens_are_storable(token: Seq<char>)
    requires
        token.len() > 0,
        forall|i: int| 0 <= i < token.len() ==> is_token_char(#[trigger] token[i]),
    ensures
        storable(token),
{
    if token.contains('\n') {
        let i = choose|i: int| 0 <= i < token.len() && token[i] == '\n';
        assert(is_token_char(token[i]));
    }
    assert(is_token_char(token[token.len() - 1]));
}

/// A set of tokens, kept in order with nothing twice.
#[derive(Debug)]
pub struct TokenSet {
    tokens: Vec<String>,
}

impl View for TokenSet {
    type V = Seq<Seq<char>>;

    /// The tokens, in order.
    closed spec fn view(&self) -> Seq<Seq<char>> {
        texts(self.tokens@)
    }
}

impl TokenSet {
    #[verifier::type_invariant]
    spec fn in_order(self) -> bool {
        ascending(texts(self.tokens@))
    }

    /// The set without a token.
    pub fn new() -> (r: TokenSet)
        ensures
            r@.len() == 0,
    {
        TokenSet { tokens: Vec::new() }
    }

    /// The number of tokens.
    pub fn len(&self) -> (n: usize)
        ensures
            n == self@.len(),
            ascending(self@),
    {
        proof {
            use_type_invariant(self);
        }
        self.tokens.len()
    }

    /// Whether the set holds a token.
    pub fn contains(&self, token: &str) -> (r: bool)
        ensures
            r == self@.contains(token@),
    {
        let wanted = String::from_str(token);
        let mut i: usize = 0;
        while i < self.tokens.len()
            invariant
                i <= self.tokens.len(),
                wanted@ == token@,
                forall|k: int| 0 <= k < i ==> texts(self.tokens@)[k] != token@,
            decreases self.tokens.len() - i,
        {
            if self.tokens[i] == wanted {
                assert(texts(self.tokens@)[i as int] == token@);
                return true;
            }
            i = i + 1;
        }
        false
    }

    /// Puts a token into the set, at its place in the order, unless the set
    /// holds it already. Says whether the token is new.
    pub fn insert(&mut self, token: String) -> (added: bool)
        ensures
            added == !old(self)@.contains(token@),
            final(self)@.to_set() == old(self)@.to_set().insert(token@),
            final(self)@.len() == old(self)@.len() + if added { 1int } else { 0int },
            ascending(final(self)@),
    {
        proof {
            use_type_invariant(&*self);
        }
        let ghost before = texts(self.tokens@);
        let chars = chars_of(token.as_str());
        let n = self.tokens.len();
        let mut i: usize = 0;
        while i < n
            invariant_except_break
                forall|k: int| 0 <= k < i ==> comes_before(before[k], token@),
            invariant
                i <= n,
                n == self.tokens@.len(),
                before == texts(self.tokens@),
                chars@ == token@,
            ensures
                forall|k: int| 0 <= k < i ==> comes_before(before[k], token@),
                i < n ==> !comes_before(before[i as int], token@),
            decreases n - i,
        {
            let here = chars_of(self.tokens[i].as_str());
            if !is_before(&here, &chars) {
                break;
            }
            i = i + 1;
        }
        if i < n && self.tokens[i] == token {
            proof {
                assert(before[i as int] == token@);
                assert(before.to_set().insert(token@) =~= before.to_set());
            }
            return false;
        }
        proof {
            assert forall|k: int| i <= k < n implies comes_before(token@, before[k]) by {
                lemma_order_total(before[i as int], token@);
                if k > i {
                    lemma_order_transitive(token@, before[i as int], before[k]);
                }
            }
            assert forall|k: int| 0 <= k < n implies before[k] != token@ by {
                lemma_order_irreflexive(token@);
            }
            let after = before.insert(i as int, token@);
            assert(ascending(after));
            assert(texts(self.tokens@.insert(i as int, token)) =~= after);
            assert(after.to_set() =~= before.to_set().insert(token@)) by {
                assert forall|t: Seq<char>| after.contains(t) <==> (before.contains(t) || t
                    == token@) by {
                    if before.contains(t) {
                        let k = choose|k: int| 0 <= k < before.len() && before[k] == t;
                        assert(after[if k < i { k } else { k + 1 }] == t);
                    }
                    if t == token@ {
                        assert(after[i as int] == t);
                    }
                    if after.contains(t) {
                        let k = choose|k: int| 0 <= k < after.len() && after[k] == t;
                        if k < i {
                            assert(before[k] == t);
                        } else if k > i {
                            assert(before[k - 1] == t);
                        }
                    }
                }
            }
        }
        let mut list: Vec<String> = Vec::new();
        assert(texts(list@) =~= Seq::<Seq<char>>::empty());
        core::mem::swap(&mut self.tokens, &mut list);
        list.insert(i, token);
        self.tokens = list;
        true
    }

    /// The tokens, in order.
    pub fn into_vec(self) -> (r: Vec<String>)
        ensures
            texts(r@) == self@,
            ascending(self@),
    {
        proof {
            use_type_invariant(&self);
        }
        self.tokens
    }
}

/// Adds to a set the tokens that a file holds: each line of the file that
/// is not empty.
pub fn read_tokens_from_file(tokens: &mut TokenSet, content: &str)
    ensures
        final(tokens)@.to_set() == old(tokens)@.to_set().union(stored_tokens(content@)),
        ascending(final(tokens)@),
{
    let chars = chars_of(content);
    let n = chars.len();
    let ghost mut seen: Seq<Seq<char>> = Seq::empty();
    let mut start: usize = 0;
    let listed = tokens.len();
    proof {
        assert(chars@.skip(0) == chars@);
        assert(seen + lines_of(chars@) == lines_of(chars@));
        assert(tokens@.to_set() =~= old(tokens)@.to_set().union(filled(seen)));
    }
    while start < n
        invariant
            start <= n,
            n == chars@.len(),
            chars@ == content@,
            lines_of(chars@) == seen + lines_of(chars@.skip(start as int)),
            tokens@.to_set() == old(tokens)@.to_set().union(filled(seen)),
            ascending(tokens@),
        decreases n - start,
    {
        let ghost rest = chars@.skip(start as int);
        let mut end: usize = start;
        while end < n && chars[end] != '\n'
            invariant
                start <= end <= n,
                n == chars@.len(),
                forall|k: int| start <= k < end ==> chars@[k] != '\n',
            decreases n - end,
        {
            end = end + 1;
        }
        proof {
            lemma_line_len(rest, (end - start) as nat);
            assert(rest.take(end - start) == chars@.subrange(start as int, end as int));
        }
        let mut stop: usize = end;
        if end < n && stop > start && chars[stop - 1] == '\r' {
            stop = stop - 1;
        }
        let ghost line = chars@.subrange(start as int, stop as int);
        assert(end < n ==> line == without_return(rest.take(end - start)));
        assert(end == n ==> line == rest);
        let ghost held = tokens@.to_set();
        if stop > start {
            tokens.insert(string_of(&chars, start, stop));
        }
        proof {
            let more = seen.push(line);
            assert(tokens@.to_set() =~= old(tokens)@.to_set().union(filled(more))) by {
                assert forall|t: Seq<char>| filled(more).contains(t) <==> (filled(seen).contains(t)
                    || (t == line && line.len() > 0)) by {
                    if filled(seen).contains(t) {
                        let k = choose|k: int| 0 <= k < seen.len() && seen[k] == t;
                        assert(more[k] == t);
                    }
                    if t == line && line.len() > 0 {
                        assert(more[seen.len() as int] == t);
                    }
                }
            }
            if end < n {
                assert(rest.skip(end - start + 1) == chars@.skip(end + 1));
                assert(seen + (seq![line] + lines_of(chars@.skip(end + 1))) == more + lines_of(
                    chars@.skip(end + 1),
                ));
            } else {
                assert(chars@.skip(n as int).len() == 0);
                assert(seen + seq![line] == more + lines_of(chars@.skip(n as int)));
            }
            seen = more;
        }
        if end < n {
            start = end + 1;
        } else {
            start = n;
        }
    }
    proof {
        assert(seen + Seq::<Seq<char>>::empty() == seen);
    }
}

/// What a file of tokens is to hold: the tokens of the set in order, one
/// on a line.
pub fn set_auto_token(tokens: &TokenSet) -> (content: String)
    ensures
        content@ == joined(tokens@),
{
    let mut content = String::new();
    let mut i: usize = 0;
    let ghost list = texts(tokens.tokens@);
    assert(list.take(0) =~= Seq::<Seq<char>>::empty());
    while i < tokens.tokens.len()
        invariant
            i <= tokens.tokens.len(),
            list == texts(tokens.tokens@),
            content@ == joined(list.take(i as int)),
        decreases tokens.tokens.len() - i,
    {
        proof {
            assert(list.take(i + 1).drop_last() == list.take(i as int));
            assert(list.take(i + 1).last() == tokens.tokens@[i as int]@);
            if i == 0 {
                assert(Seq::<char>::empty() + list[0] == list[0]);
            }
        }
        if i > 0 {
            content.push('\n');
        }
        content.append(tokens.tokens[i].as_str());
        i = i + 1;
    }
    assert(list.take(list.len() as int) == list);
    content
}

/// The tokens to accept, and what to store where a token had to be made.
#[derive(Debug)]
pub struct TokenAnswer {
    /// The tokens, in order.
    pub tokens: Vec<String>,
    /// The new content of the file, where it is to change.
    pub store: Option<String>,
}

/// The tokens that the status surface accepts, given what the token file
/// holds. Where the file holds tokens these are the tokens, and the file
/// stays as it is. Where it holds none, a token of 32 random letters and
/// digits is made, and the file is to hold that token.
pub fn get_auth_token(content: &str) -> (r: TokenAnswer)
    ensures
        ascending(texts(r.tokens@)),
        stored_tokens(content@) != Set::<Seq<char>>::empty() ==> {
            &&& texts(r.tokens@).to_set() == stored_tokens(content@)
            &&& r.store is None
        },
        stored_tokens(content@) == Set::<Seq<char>>::empty() ==> {
            &&& r.tokens@.len() == 1
            &&& r.tokens@[0]@.len() == 32
            &&& forall|i: int| 0 <= i < 32 ==> is_token_char(#[trigger] r.tokens@[0]@[i])
            &&& r.store matches Some(text) && text@ == r.tokens@[0]@
        },
{
    let mut tokens = TokenSet::new();
    assert(tokens@.to_set() =~= Set::<Seq<char>>::empty());
    read_tokens_from_file(&mut tokens, content);
    assert(tokens@.to_set() =~= stored_tokens(content@));
    let mut store: Option<String> = None;
    if tokens.len() == 0 {
        assert(tokens@.to_set() =~= Set::<Seq<char>>::empty());
        let made = random_string(32);
        let ghost made_text = made@;
        tokens.insert(made);
        store = Some(set_auto_token(&tokens));
        assert(tokens@[0] == made_text) by {
            assert(tokens@.to_set().contains(tokens@[0]));
        }
    } else {
        assert(tokens@.to_set().contains(tokens@[0]));
    }
    let tokens = tokens.into_vec();
    TokenAnswer { tokens, store }
}

} // verus!
