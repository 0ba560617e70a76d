//! Which firmware modules a module uses: the `crate::name` and
//! `crate::{a, b}` paths found in its tokens.
use vstd::prelude::*;

use proc_macro2::{Delimiter as TokenDelimiter, TokenStream, TokenTree};

verus! {

/// How a token group is delimited.
#[derive(Copy, Clone, PartialEq, Eq, Structural, Debug)]
pub enum Delimiter {
    Parenthesis,
    Brace,
    Bracket,
    /// A group without visible delimiters.
    Invisible,
}

/// A token tree of Rust source text.
#[derive(Debug)]
pub enum Token {
    Ident(String),
    Punct(char),
    Literal(String),
    Group(Delimiter, Vec<Token>),
}

pub open spec fn is_colon(t: Token) -> bool {
    t matches Token::Punct(c) && c == ':'
}

/// After `crate` at position `k - 1`: whether `::` follows, and where
/// scanning goes on (one token is consumed per look, matching or not).
pub open spec fn double_colon(ts: Seq<Token>, k: int) -> (bool, int) {
    if k >= ts.len() {
        (false, k)
    } else if !(ts[k] is Punct) || !is_colon(ts[k]) {
        (false, k + 1)
    } else if k + 1 >= ts.len() {
        (false, k + 1)
    } else if !(ts[k + 1] is Punct) {
        (false, k + 2)
    } else {
        (is_colon(ts[k + 1]), k + 2)
    }
}

pub open spec fn word_crate() -> Seq<char> {
    seq!['c', 'r', 'a', 't', 'e']
}

pub open spec fn word_self() -> Seq<char> {
    seq!['s', 'e', 'l', 'f']
}

pub open spec fn word_super() -> Seq<char> {
    seq!['s', 'u', 'p', 'e', 'r']
}

/// The module names that `ts[i..]` refers to from the crate root.
pub open spec fn scan_from(ts: Seq<Token>, i: int) -> Set<Seq<char>>
    decreases ts, 0int, ts.len() - i,
{
    if i < 0 || i >= ts.len() {
        Set::empty()
    } else {
        match ts[i] {
            Token::Ident(s) => if s@ == word_crate() {
                let dc = double_colon(ts, i + 1);
                if dc.0 {
                    let j = dc.1;
                    if j >= ts.len() {
                        Set::empty()
                    } else {
                        let rest = scan_from(ts, j + 1);
                        match ts[j] {
                            Token::Ident(name) => rest.insert(name@),
                            Token::Group(d, inner) => if d == Delimiter::Brace {
                                rest + group_roots_from(inner@, 0, true)
                            } else {
                                rest + scan_from(inner@, 0)
                            },
                            _ => rest,
                        }
                    }
                } else {
                    scan_from(ts, dc.1)
                }
            } else {
                scan_from(ts, i + 1)
            },
            Token::Group(_, inner) => scan_from(inner@, 0) + scan_from(ts, i + 1),
            _ => scan_from(ts, i + 1),
        }
    }
}

/// The roots named in the braces of `crate::{...}` from position `i` on:
/// the first identifier of each comma-separated item, except `self`,
/// `super` and `crate`; nested groups are scanned for further paths.
pub open spec fn group_roots_from(ts: Seq<Token>, i: int, expecting_root: bool) -> Set<Seq<char>>
    decreases ts, 0int, ts.len() - i,
{
    if i < 0 || i >= ts.len() {
        Set::empty()
    } else {
        match ts[i] {
            Token::Ident(name) => if expecting_root {
                let rest = group_roots_from(ts, i + 1, false);
                if name@ != word_self() && name@ != word_super() && name@ != word_crate() {
                    rest.insert(name@)
                } else {
                    rest
                }
            } else {
                group_roots_from(ts, i + 1, false)
            },
            Token::Punct(c) => group_roots_from(ts, i + 1, c == ','),
            Token::Group(_, inner) => scan_from(inner@, 0) + group_roots_from(ts, i + 1, false),
            _ => group_roots_from(ts, i + 1, false),
        }
    }
}

} // verus!

verus! {

/// The names held by a list of module names.
pub open spec fn names(v: Seq<String>) -> Set<Seq<char>> {
    Set::new(|s: Seq<char>| exists|i: int| 0 <= i < v.len() && #[trigger] v[i]@ == s)
}

/// No name occurs twice.
pub open spec fn no_duplicates(v: Seq<String>) -> bool {
    forall|i: int, j: int| 0 <= i < j < v.len() ==> #[trigger] v[i]@ != #[trigger] v[j]@
}

/// `a` comes before `b` when both are compared byte by byte from position
/// `i` on, a proper prefix coming first.
pub open spec fn bytes_less_from(a: Seq<u8>, b: Seq<u8>, i: nat) -> bool
    decreases a.len() - i,
{
    if i >= a.len() {
        i < b.len()
    } else if i >= b.len() {
        false
    } else if a[i as int] != b[i as int] {
        a[i as int] < b[i as int]
    } else {
        bytes_less_from(a, b, i + 1)
    }
}

/// The order of `String`: the UTF-8 bytes of the names, compared
/// lexicographically.
pub open spec fn name_less(x: Seq<char>, y: Seq<char>) -> bool {
    bytes_less_from(vstd::utf8::encode_utf8(x), vstd::utf8::encode_utf8(y), 0)
}

/// The names are in strictly ascending order (so none occurs twice).
pub open spec fn sorted_names(v: Seq<String>) -> bool {
    forall|i: int, j: int| 0 <= i < j < v.len() ==> name_less(#[trigger] v[i]@, #[trigger] v[j]@)
}

proof fn lemma_bytes_irreflexive(a: Seq<u8>, i: nat)
    ensures
        !bytes_less_from(a, a, i),
    decreases a.len() - i,
{
    if i < a.len() {
        lemma_bytes_irreflexive(a, i + 1);
    }
}

proof fn lemma_bytes_total(a: Seq<u8>, b: Seq<u8>, i: nat)
    requires
        i <= a.len(),
        i <= b.len(),
        a.subrange(i as int, a.len() as int) != b.subrange(i as int, b.len() as int),
    ensures
        bytes_less_from(a, b, i) || bytes_less_from(b, a, i),
    decreases a.len() - i,
{
    if i == a.len() {
        if i == b.len() {
            assert(a.subrange(i as int, a.len() as int) =~= b.subrange(i as int, b.len() as int));
        }
    } else if i == b.len() {
    } else if a[i as int] == b[i as int] {
        let sa = a.subrange(i as int, a.len() as int);
        let sb = b.subrange(i as int, b.len() as int);
        let ta = a.subrange(i + 1int, a.len() as int);
        let tb = b.subrange(i + 1int, b.len() as int);
        if ta == tb {
            assert(ta.len() == tb.len());
            assert(sa.len() == sb.len());
            assert forall|k: int| 0 <= k < sa.len() implies sa[k] == sb[k] by {
                if k > 0 {
                    assert(sa[k] == ta[k - 1]);
                    assert(sb[k] == tb[k - 1]);
                }
            }
            assert(sa =~= sb);
        }
        lemma_bytes_total(a, b, i + 1);
    }
}

proof fn lemma_bytes_transitive(a: Seq<u8>, b: Seq<u8>, c: Seq<u8>, i: nat)
    requires
        bytes_less_from(a, b, i),
        bytes_less_from(b, c, i),
    ensures
        bytes_less_from(a, c, i),
    decreases a.len() - i,
{
    if i < a.len() && i < b.len() && i < c.len() && a[i as int] == b[i as int] && b[i as int] == c[i as int] {
        lemma_bytes_transitive(a, b, c, i + 1);
    }
}

/// `name_less` orders distinct names one way or the other, never both
/// ways, and transitively.
proof fn lemma_name_order(x: Seq<char>, y: Seq<char>, z: Seq<char>)
    ensures
        !name_less(x, x),
        x != y ==> name_less(x, y) || name_less(y, x),
        name_less(x, y) && name_less(y, z) ==> name_less(x, z),
{
    let ex = vstd::utf8::encode_utf8(x);
    let ey = vstd::utf8::encode_utf8(y);
    let ez = vstd::utf8::encode_utf8(z);
    lemma_bytes_irreflexive(ex, 0);
    if x != y {
        vstd::utf8::encode_utf8_decode_utf8(x);
        vstd::utf8::encode_utf8_decode_utf8(y);
        assert(ex != ey);
        assert(ex.subrange(0, ex.len() as int) =~= ex);
        assert(ey.subrange(0, ey.len() as int) =~= ey);
        lemma_bytes_total(ex, ey, 0);
    }
    if name_less(x, y) && name_less(y, z) {
        lemma_bytes_transitive(ex, ey, ez, 0);
    }
}

/// Names in ascending order occur once each.
pub proof fn lemma_sorted_names_unique(v: Seq<String>)
    requires
        sorted_names(v),
    ensures
        no_duplicates(v),
{
    assert forall|i: int, j: int| 0 <= i < j < v.len() implies #[trigger] v[i]@ != #[trigger] v[j]@ by {
        lemma_name_order(v[i]@, v[j]@, v[j]@);
        if v[i]@ == v[j]@ {
            lemma_name_order(v[j]@, v[j]@, v[j]@);
        }
    }
}

/// Whether `a` sorts before `b`, as `String`'s order has it.
fn name_less_exec(a: &String, b: &String) -> (r: bool)
    ensures
        r == name_less(a@, b@),
{
    let x = a.as_str().as_bytes();
    let y = b.as_str().as_bytes();
    let mut i: usize = 0;
    while i < x.len() && i < y.len()
        invariant
            0 <= i <= x@.len(),
            i <= y@.len(),
            x@ == vstd::utf8::encode_utf8(a@),
            y@ == vstd::utf8::encode_utf8(b@),
            bytes_less_from(x@, y@, 0) == bytes_less_from(x@, y@, i as nat),
        decreases x@.len() - i,
    {
        if x[i] != y[i] {
            return x[i] < y[i];
        }
        i = i + 1;
    }
    i < y.len() && i >= x.len()
}

/// Adds `name` to the ascending list of names unless it is already there.
pub fn insert_dependency(dependencies: &mut Vec<String>, name: &String)
    requires
        sorted_names(old(dependencies)@),
    ensures
        sorted_names(final(dependencies)@),
        names(final(dependencies)@) == names(old(dependencies)@).insert(name@),
{
    let mut i: usize = 0;
    while i < dependencies.len()
        invariant
            0 <= i <= dependencies@.len(),
            dependencies@ == old(dependencies)@,
            sorted_names(dependencies@),
            forall|k: int| 0 <= k < i ==> name_less(#[trigger] dependencies@[k]@, name@),
        ensures
            i < dependencies@.len() ==> !name_less(dependencies@[i as int]@, name@),
        decreases dependencies@.len() - i,
    {
        if !name_less_exec(&dependencies[i], name) {
            break;
        }
        i = i + 1;
    }
    if i < dependencies.len() && dependencies[i] == *name {
        assert(names(dependencies@) =~= names(dependencies@).insert(name@)) by {
            assert(names(dependencies@).contains(name@)) by {
                assert(dependencies@[i as int]@ == name@);
            }
        }
        return;
    }
    let ghost before = dependencies@;
    proof {
        if i < before.len() {
            lemma_name_order(before[i as int]@, name@, name@);
        }
    }
    dependencies.insert(i, name.clone());
    assert(dependencies@ == before.insert(i as int, *name));
    assert forall|p: int, q: int| 0 <= p < q < dependencies@.len() implies name_less(
        #[trigger] dependencies@[p]@,
        #[trigger] dependencies@[q]@,
    ) by {
        if p < i && q == i {
        } else if p < i && q > i {
            assert(name_less(before[p]@, before[q - 1]@));
        } else if p == i {
            if q - 1 > i {
                lemma_name_order(name@, before[i as int]@, before[q - 1]@);
            }
        } else if p < i {
            assert(name_less(before[p]@, before[q]@));
        } else {
            assert(name_less(before[p - 1]@, before[q - 1]@));
        }
    }
    assert(names(dependencies@) =~= names(before).insert(name@)) by {
        assert forall|s: Seq<char>| #[trigger] names(dependencies@).contains(s) implies names(before).insert(name@).contains(s) by {
            let k = choose|k: int| 0 <= k < dependencies@.len() && #[trigger] dependencies@[k]@ == s;
            if k < i {
                assert(before[k]@ == s);
            } else if k > i {
                assert(before[k - 1]@ == s);
            }
        }
        assert forall|s: Seq<char>| #[trigger] names(before).insert(name@).contains(s) implies names(dependencies@).contains(s) by {
            if s == name@ {
                assert(dependencies@[i as int]@ == s);
            } else {
                let k = choose|k: int| 0 <= k < before.len() && #[trigger] before[k]@ == s;
                if k < i {
                    assert(dependencies@[k]@ == s);
                } else {
                    assert(dependencies@[k + 1]@ == s);
                }
            }
        }
    }
}

/// Whether `s` is the word `w`.
fn is_word(s: &String, w: &str) -> (r: bool)
    ensures
        r == (s@ == w@),
{
    let owned = w.to_owned();
    *s == owned
}

/// Looks for `::` from position `k`, consuming up to two tokens; returns
/// whether it was found and the position after the tokens consumed.
pub fn consume_double_colon(tokens: &[Token], k: usize) -> (r: (bool, usize))
    ensures
        (r.0, r.1 as int) == double_colon(tokens@, k as int),
{
    if k >= tokens.len() {
        return (false, k);
    }
    match &tokens[k] {
        Token::Punct(first) => {
            if *first != ':' {
                return (false, k + 1);
            }
        },
        _ => {
            return (false, k + 1);
        },
    }
    if k + 1 >= tokens.len() {
        return (false, k + 1);
    }
    match &tokens[k + 1] {
        Token::Punct(second) => (*second == ':', k + 2),
        _ => (false, k + 2),
    }
}

} // verus!

verus! {

/// Reads the root after `crate::` at position `j`: a name is recorded, a
/// braced group contributes its roots, another group is scanned; returns the
/// position after it.
pub fn collect_root_dependency(tokens: &Vec<Token>, j: usize, dependencies: &mut Vec<String>) -> (r: usize)
    requires
        sorted_names(old(dependencies)@),
    ensures
        sorted_names(final(dependencies)@),
        r == if j >= tokens@.len() { j as int } else { j + 1 },
        names(final(dependencies)@) == names(old(dependencies)@) + if j >= tokens@.len() {
            Set::<Seq<char>>::empty()
        } else {
            match tokens@[j as int] {
                Token::Ident(name) => Set::<Seq<char>>::empty().insert(name@),
                Token::Group(d, inner) => if d == Delimiter::Brace {
                    group_roots_from(inner@, 0, true)
                } else {
                    scan_from(inner@, 0)
                },
                _ => Set::<Seq<char>>::empty(),
            }
        },
    decreases tokens@, 0int,
{
    if j >= tokens.len() {
        assert(names(dependencies@) =~= names(dependencies@) + Set::<Seq<char>>::empty());
        return j;
    }
    match &tokens[j] {
        Token::Ident(name) => {
            insert_dependency(dependencies, name);
            assert(names(old(dependencies)@).insert(name@) =~= names(old(dependencies)@) + Set::<Seq<char>>::empty().insert(name@));
        },
        Token::Group(delimiter, inner) => {
            if *delimiter == Delimiter::Brace {
                collect_group_roots(inner, dependencies);
            } else {
                scan_stream(inner, dependencies);
            }
        },
        _ => {
            assert(names(dependencies@) =~= names(dependencies@) + Set::<Seq<char>>::empty());
        },
    }
    j + 1
}

/// Records every module named by a `crate::` path in `tokens`, nested
/// groups included.
pub fn scan_stream(tokens: &Vec<Token>, dependencies: &mut Vec<String>)
    requires
        sorted_names(old(dependencies)@),
    ensures
        sorted_names(final(dependencies)@),
        names(final(dependencies)@) == names(old(dependencies)@) + scan_from(tokens@, 0),
    decreases tokens@, 1int,
{
    proof {
        reveal_strlit("crate");
        assert("crate"@ =~= word_crate());
    }
    let mut i: usize = 0;
    while i < tokens.len()
        invariant
            0 <= i <= tokens@.len(),
            "crate"@ == word_crate(),
            sorted_names(dependencies@),
            names(dependencies@) + scan_from(tokens@, i as int) == names(old(dependencies)@) + scan_from(tokens@, 0),
        decreases tokens@.len() - i,
    {
        let ghost before = names(dependencies@);
        match &tokens[i] {
            Token::Ident(ident) => {
                if is_word(ident, "crate") {
                    let (found, j) = consume_double_colon(tokens.as_slice(), i + 1);
                    if found {
                        let next = collect_root_dependency(tokens, j, dependencies);
                        proof {
                            assert(scan_from(tokens@, i as int) =~= (if j >= tokens@.len() {
                                Set::<Seq<char>>::empty()
                            } else {
                                match tokens@[j as int] {
                                    Token::Ident(name) => Set::<Seq<char>>::empty().insert(name@),
                                    Token::Group(d, inner) => if d == Delimiter::Brace {
                                        group_roots_from(inner@, 0, true)
                                    } else {
                                        scan_from(inner@, 0)
                                    },
                                    _ => Set::<Seq<char>>::empty(),
                                }
                            }) + scan_from(tokens@, next as int));
                            assert(names(dependencies@) + scan_from(tokens@, next as int) =~= before + scan_from(tokens@, i as int));
                        }
                        i = next;
                    } else {
                        i = j;
                    }
                } else {
                    i = i + 1;
                }
            },
            Token::Group(_, inner) => {
                scan_stream(inner, dependencies);
                proof {
                    assert(names(dependencies@) + scan_from(tokens@, i + 1) =~= before + scan_from(tokens@, i as int));
                }
                i = i + 1;
            },
            _ => {
                i = i + 1;
            },
        }
    }
    assert(scan_from(tokens@, i as int) =~= Set::<Seq<char>>::empty());
    assert(names(dependencies@) =~= names(dependencies@) + scan_from(tokens@, i as int));
}

/// Records the roots listed in the braces of `crate::{...}`.
pub fn collect_group_roots(tokens: &Vec<Token>, dependencies: &mut Vec<String>)
    requires
        sorted_names(old(dependencies)@),
    ensures
        sorted_names(final(dependencies)@),
        names(final(dependencies)@) == names(old(dependencies)@) + group_roots_from(tokens@, 0, true),
    decreases tokens@, 1int,
{
    proof {
        reveal_strlit("crate");
        reveal_strlit("self");
        reveal_strlit("super");
        assert("crate"@ =~= word_crate());
        assert("self"@ =~= word_self());
        assert("super"@ =~= word_super());
    }
    let mut expecting_root = true;
    let mut i: usize = 0;
    while i < tokens.len()
        invariant
            0 <= i <= tokens@.len(),
            "crate"@ == word_crate(),
            "self"@ == word_self(),
            "super"@ == word_super(),
            sorted_names(dependencies@),
            names(dependencies@) + group_roots_from(tokens@, i as int, expecting_root) == names(old(dependencies)@)
                + group_roots_from(tokens@, 0, true),
        decreases tokens@.len() - i,
    {
        let ghost before = names(dependencies@);
        let ghost was_expecting = expecting_root;
        match &tokens[i] {
            Token::Ident(ident) => {
                if expecting_root {
                    if !is_word(ident, "self") && !is_word(ident, "super") && !is_word(ident, "crate") {
                        insert_dependency(dependencies, ident);
                    }
                }
                expecting_root = false;
            },
            Token::Punct(punct) => {
                expecting_root = *punct == ',';
            },
            Token::Group(_, inner) => {
                scan_stream(inner, dependencies);
                expecting_root = false;
            },
            _ => {
                expecting_root = false;
            },
        }
        proof {
            assert(names(dependencies@) + group_roots_from(tokens@, i + 1, expecting_root) =~= before
                + group_roots_from(tokens@, i as int, was_expecting));
        }
        i = i + 1;
    }
    assert(group_roots_from(tokens@, i as int, expecting_root) =~= Set::<Seq<char>>::empty());
    assert(names(dependencies@) =~= names(dependencies@) + group_roots_from(tokens@, i as int, expecting_root));
}

/// The modules a module's tokens refer to from the crate root.
pub fn scan_dependencies(tokens: &Vec<Token>) -> (r: Vec<String>)
    ensures
        sorted_names(r@),
        no_duplicates(r@),
        names(r@) == scan_from(tokens@, 0),
{
    let mut dependencies: Vec<String> = Vec::new();
    assert(names(dependencies@) =~= Set::<Seq<char>>::empty());
    scan_stream(tokens, &mut dependencies);
    assert(names(dependencies@) =~= Set::<Seq<char>>::empty() + scan_from(tokens@, 0));
    proof {
        lemma_sorted_names_unique(dependencies@);
    }
    dependencies
}

} // verus!

verus! {

#[verifier::external_type_specification]
#[verifier::external_body]
pub struct ExTokenStream(TokenStream);

#[verifier::external_type_specification]
#[verifier::external_body]
pub struct ExTokenTree(TokenTree);

#[verifier::external_type_specification]
#[verifier::external_body]
pub struct ExTokenDelimiter(TokenDelimiter);

/// Converts a `proc_macro2` delimiter, variant for variant.
#[verifier::external_body]
fn delimiter_of(delimiter: TokenDelimiter) -> Delimiter {
    match delimiter {
        TokenDelimiter::Parenthesis => Delimiter::Parenthesis,
        TokenDelimiter::Brace => Delimiter::Brace,
        TokenDelimiter::Bracket => Delimiter::Bracket,
        TokenDelimiter::None => Delimiter::Invisible,
    }
}

/// Converts one `proc_macro2` token tree, variant for variant.
#[verifier::external_body]
fn token_of(tree: TokenTree) -> Token {
    match tree {
        TokenTree::Ident(ident) => Token::Ident(ident.to_string()),
        TokenTree::Punct(punct) => Token::Punct(punct.as_char()),
        TokenTree::Literal(literal) => Token::Literal(literal.to_string()),
        TokenTree::Group(group) => Token::Group(delimiter_of(group.delimiter()), tokens_of(group.stream())),
    }
}

/// Converts a `proc_macro2` token stream, tree for tree.
#[verifier::external_body]
fn tokens_of(stream: TokenStream) -> Vec<Token> {
    let mut tokens = Vec::new();
    for tree in stream {
        tokens.push(token_of(tree));
    }
    tokens
}

/// `proc_macro2::TokenStream::from_str` (through `str::parse`): lexes Rust
/// source text into token trees, or fails. Nothing is claimed of the
/// outcome: `proc_macro2` lexes with rustc's lexer inside a procedural
/// macro and with its own elsewhere (and a process-wide switch picks), and
/// the two differ on some texts, so the result is not a function of the
/// text alone.
#[verifier::external_body]
fn lex(source: &str) -> (r: Option<Vec<Token>>) {
    match source.parse::<TokenStream>() {
        Ok(stream) => Some(tokens_of(stream)),
        Err(_) => None,
    }
}

/// Lexes a module's source text and finds the modules it refers to from
/// the crate root: the tokens that were scanned and the names found in
/// them, each once and in ascending order; `None` when the text does not
/// lex.
pub fn module_dependencies(source: &str) -> (r: Option<(Vec<Token>, Vec<String>)>)
    ensures
        r matches Some((ts, d)) ==> sorted_names(d@) && no_duplicates(d@) && names(d@) == scan_from(ts@, 0),
{
    match lex(source) {
        Some(tokens) => {
            let dependencies = scan_dependencies(&tokens);
            Some((tokens, dependencies))
        },
        None => None,
    }
}

} // verus!

verus! {

/// The path of an attribute, segment by segment, is `expected`.
pub open spec fn path_is(segments: Seq<String>, expected: Seq<Seq<char>>) -> bool {
    segments.len() == expected.len() && forall|i: int| 0 <= i < segments.len() ==> #[trigger] segments[i]@ == expected[i]
}

/// Whether an attribute path is exactly `expected`.
pub fn is_attr_path(segments: &Vec<String>, expected: &Vec<&str>) -> (r: bool)
    ensures
        r == (segments@.len() == expected@.len() && forall|i: int|
            0 <= i < segments@.len() ==> #[trigger] segments@[i]@ == expected@[i]@),
{
    if segments.len() != expected.len() {
        return false;
    }
    let mut i: usize = 0;
    while i < segments.len()
        invariant
            0 <= i <= segments@.len(),
            segments@.len() == expected@.len(),
            forall|k: int| 0 <= k < i ==> #[trigger] segments@[k]@ == expected@[k]@,
        decreases segments@.len() - i,
    {
        if !is_word(&segments[i], expected[i]) {
            return false;
        }
        i = i + 1;
    }
    true
}

/// `#[arduino_hal::entry]`, which the entry attribute replaces.
pub fn is_arduino_hal_entry_attr(segments: &Vec<String>) -> (r: bool)
    ensures
        r == (segments@.len() == 2 && segments@[0]@ == "arduino_hal"@ && segments@[1]@ == "entry"@),
{
    if segments.len() != 2 {
        return false;
    }
    is_word(&segments[0], "arduino_hal") && is_word(&segments[1], "entry")
}

/// `#[es_entry::module(..)]` or `#[es_entry::entry_mod(..)]`, which names the
/// active entry module.
pub fn is_entry_attr(segments: &Vec<String>) -> (r: bool)
    ensures
        r == (segments@.len() == 2 && segments@[0]@ == "es_entry"@ && (segments@[1]@ == "module"@
            || segments@[1]@ == "entry_mod"@)),
{
    if segments.len() != 2 {
        return false;
    }
    is_word(&segments[0], "es_entry") && (is_word(&segments[1], "module") || is_word(&segments[1], "entry_mod"))
}

/// The modules reached so far while following `crate::` paths, each once,
/// in ascending order.
pub struct ModuleCollector {
    modules: Vec<String>,
}

impl ModuleCollector {
    #[verifier::type_invariant]
    spec fn each_once(self) -> bool {
        sorted_names(self.modules@)
    }

    pub closed spec fn spec_modules(&self) -> Seq<String> {
        self.modules@
    }

    /// Nothing reached yet.
    pub fn new() -> (r: Self)
        ensures
            r.spec_modules() == Seq::<String>::empty(),
    {
        ModuleCollector { modules: Vec::new() }
    }

    /// Marks `module_name` reached; returns whether it is new (only a new
    /// module has to be read and followed).
    pub fn visit(&mut self, module_name: &String) -> (r: bool)
        ensures
            sorted_names(final(self).spec_modules()),
            no_duplicates(final(self).spec_modules()),
            r == !names(old(self).spec_modules()).contains(module_name@),
            names(final(self).spec_modules()) == names(old(self).spec_modules()).insert(module_name@),
    {
        proof {
            use_type_invariant(&*self);
        }
        let mut modules: Vec<String> = Vec::new();
        std::mem::swap(&mut modules, &mut self.modules);
        let mut i: usize = 0;
        let mut found = false;
        while i < modules.len()
            invariant_except_break
                !found,
                forall|k: int| 0 <= k < i ==> #[trigger] modules@[k]@ != module_name@,
            invariant
                0 <= i <= modules@.len(),
                modules@ == old(self).spec_modules(),
                sorted_names(modules@),
            ensures
                found ==> names(modules@).contains(module_name@),
                !found ==> forall|k: int| 0 <= k < modules@.len() ==> #[trigger] modules@[k]@ != module_name@,
            decreases modules@.len() - i,
        {
            if modules[i] == *module_name {
                assert(names(modules@).contains(module_name@));
                found = true;
                break;
            }
            i = i + 1;
        }
        if found {
            assert(names(modules@) =~= names(modules@).insert(module_name@));
        } else {
            assert(!names(modules@).contains(module_name@));
            insert_dependency(&mut modules, module_name);
        }
        self.modules = modules;
        proof {
            lemma_sorted_names_unique(self.modules@);
        }
        !found
    }

    /// The modules reached, each once, in ascending order.
    pub fn modules(&self) -> (r: &Vec<String>)
        ensures
            r@ == self.spec_modules(),
            sorted_names(r@),
            no_duplicates(r@),
    {
        proof {
            use_type_invariant(self);
            lemma_sorted_names_unique(self.modules@);
        }
        &self.modules
    }
}

} // verus!

verus! {

/// `x` is the entry module or a dependency recorded for a module already
/// read.
pub open spec fn from_entry(entry: Seq<char>, deps: Map<Seq<char>, Set<Seq<char>>>, x: Seq<char>) -> bool {
    x == entry || exists|m: Seq<char>| deps.dom().contains(m) && #[trigger] deps[m].contains(x)
}

/// The walk is complete: the entry is reached, every reached module was
/// read, every dependency followed from a reached module is reached, and
/// every reached module is the entry or such a dependency.
pub open spec fn walk_closed(entry: Seq<char>, deps: Map<Seq<char>, Set<Seq<char>>>, reached: Set<Seq<char>>) -> bool {
    &&& reached.contains(entry)
    &&& forall|m: Seq<char>| #[trigger] reached.contains(m) ==> deps.dom().contains(m)
    &&& forall|m: Seq<char>, d: Seq<char>| deps.dom().contains(m) && #[trigger] deps[m].contains(d) ==> reached.contains(d)
    &&& forall|r: Seq<char>| #[trigger] reached.contains(r) ==> from_entry(entry, deps, r)
}

/// The dependencies that are followed: those the caller could resolve to a
/// module file.
pub open spec fn followed(deps: Seq<String>, resolvable: Seq<bool>) -> Set<Seq<char>> {
    Set::new(|x: Seq<char>| exists|i: int| 0 <= i < deps.len() && i < resolvable.len() && resolvable[i] && #[trigger] deps[i]@ == x)
}

/// The depth-first walk from an entry module through the modules it
/// reaches by `crate::` paths. The caller reads each module that
/// `next_module` names and hands its dependencies back to `absorb`.
pub struct ModuleWalk {
    entry: Ghost<Seq<char>>,
    reached: ModuleCollector,
    stack: Vec<String>,
    current: Ghost<Option<Seq<char>>>,
    deps: Ghost<Map<Seq<char>, Set<Seq<char>>>>,
}

impl ModuleWalk {
    pub closed spec fn entry(&self) -> Seq<char> {
        self.entry@
    }

    /// The modules reached so far.
    pub closed spec fn reached(&self) -> Set<Seq<char>> {
        names(self.reached.spec_modules())
    }

    /// The module handed out and not yet absorbed.
    pub closed spec fn current(&self) -> Option<Seq<char>> {
        self.current@
    }

    /// For each module read, the dependencies followed from it.
    pub closed spec fn deps(&self) -> Map<Seq<char>, Set<Seq<char>>> {
        self.deps@
    }

    pub closed spec fn wf(&self) -> bool {
        let reached = self.reached();
        let deps = self.deps@;
        let entry = self.entry@;
        let pending = names(self.stack@);
        &&& forall|m: Seq<char>| #[trigger] deps.dom().contains(m) ==> reached.contains(m)
        &&& forall|r: Seq<char>| #[trigger] reached.contains(r) ==> deps.dom().contains(r) || self.current@ == Some(r)
        &&& (self.current@ matches Some(c) ==> reached.contains(c) && !deps.dom().contains(c))
        &&& forall|r: Seq<char>| #[trigger] reached.contains(r) ==> from_entry(entry, deps, r)
        &&& forall|i: int| 0 <= i < self.stack@.len() ==> from_entry(entry, deps, #[trigger] self.stack@[i]@)
        &&& reached.contains(entry) || pending.contains(entry)
        &&& forall|m: Seq<char>, d: Seq<char>|
            deps.dom().contains(m) && #[trigger] deps[m].contains(d) ==> reached.contains(d) || pending.contains(d)
    }

    /// A walk that starts at `entry`; nothing is reached yet.
    pub fn new(entry: &String) -> (r: Self)
        ensures
            r.wf(),
            r.entry() == entry@,
            r.reached() == Set::<Seq<char>>::empty(),
            r.current() == None::<Seq<char>>,
            r.deps() == Map::<Seq<char>, Set<Seq<char>>>::empty(),
    {
        let mut stack: Vec<String> = Vec::new();
        stack.push(entry.clone());
        let r = ModuleWalk {
            entry: Ghost(entry@),
            reached: ModuleCollector::new(),
            stack,
            current: Ghost(None),
            deps: Ghost(Map::empty()),
        };
        assert(names(r.reached.spec_modules()) =~= Set::<Seq<char>>::empty());
        assert(names(r.stack@).contains(entry@)) by {
            assert(r.stack@[0]@ == entry@);
        }
        r
    }

    /// The next module to read: the most recently found dependency not yet
    /// reached, which becomes reached and current; `None` once the walk is
    /// complete.
    pub fn next_module(&mut self) -> (r: Option<String>)
        requires
            old(self).wf(),
            old(self).current() is None,
        ensures
            final(self).wf(),
            final(self).entry() == old(self).entry(),
            final(self).deps() == old(self).deps(),
            match r {
                Some(c) => {
                    &&& !old(self).reached().contains(c@)
                    &&& final(self).reached() == old(self).reached().insert(c@)
                    &&& final(self).current() == Some(c@)
                    &&& from_entry(old(self).entry(), old(self).deps(), c@)
                },
                None => {
                    &&& final(self).current() is None
                    &&& final(self).reached() == old(self).reached()
                    &&& walk_closed(final(self).entry(), final(self).deps(), final(self).reached())
                },
            },
    {
        loop
            invariant
                self.wf(),
                self.current@ is None,
                self.entry@ == old(self).entry(),
                self.deps@ == old(self).deps(),
                self.reached() == old(self).reached(),
            decreases self.stack@.len(),
        {
            let ghost before = self.stack@;
            match self.stack.pop() {
                None => {
                    assert(names(self.stack@) =~= Set::<Seq<char>>::empty());
                    return None;
                },
                Some(name) => {
                    assert(self.stack@ == before.drop_last());
                    assert(name == before.last());
                    assert(from_entry(self.entry@, self.deps@, name@));
                    let ghost old_reached = self.reached();
                    let fresh = self.reached.visit(&name);
                    assert forall|d: Seq<char>| #[trigger] names(before).contains(d) implies self.reached().contains(d)
                        || names(self.stack@).contains(d) by {
                        let k = choose|k: int| 0 <= k < before.len() && #[trigger] before[k]@ == d;
                        if k < before.len() - 1 {
                            assert(self.stack@[k]@ == d);
                        }
                    }
                    assert forall|i: int| 0 <= i < self.stack@.len() implies from_entry(
                        self.entry@,
                        self.deps@,
                        #[trigger] self.stack@[i]@,
                    ) by {
                        assert(self.stack@[i] == before[i]);
                    }
                    if fresh {
                        self.current = Ghost(Some(name@));
                        return Some(name);
                    }
                },
            }
        }
    }

    /// Records the dependencies `deps` of the current module, with whether
    /// each resolves to a module file; the resolvable ones are followed,
    /// first one first.
    pub fn absorb(&mut self, deps: &Vec<String>, resolvable: &Vec<bool>)
        requires
            old(self).wf(),
            old(self).current() is Some,
            deps@.len() == resolvable@.len(),
        ensures
            final(self).wf(),
            final(self).entry() == old(self).entry(),
            final(self).reached() == old(self).reached(),
            final(self).current() is None,
            final(self).deps() == old(self).deps().insert(old(self).current()->0, followed(deps@, resolvable@)),
    {
        let ghost c = self.current@->0;
        let ghost old_deps = self.deps@;
        let ghost new_deps = old_deps.insert(c, followed(deps@, resolvable@));
        let ghost old_stack = self.stack@;
        assert forall|i: int| 0 <= i < old_stack.len() implies from_entry(self.entry@, new_deps, #[trigger] old_stack[i]@) by {
            if old_stack[i]@ != self.entry@ {
                let m = choose|m: Seq<char>| old_deps.dom().contains(m) && #[trigger] old_deps[m].contains(old_stack[i]@);
                assert(new_deps[m] == old_deps[m]);
            }
        }
        let mut i = deps.len();
        while i > 0
            invariant
                0 <= i <= deps@.len(),
                deps@.len() == resolvable@.len(),
                self.entry@ == old(self).entry(),
                self.deps@ == old_deps,
                self.reached() == old(self).reached(),
                self.current@ == Some(c),
                new_deps == old_deps.insert(c, followed(deps@, resolvable@)),
                self.stack@.len() >= old_stack.len(),
                forall|k: int| 0 <= k < old_stack.len() ==> #[trigger] self.stack@[k] == old_stack[k],
                forall|k: int| 0 <= k < self.stack@.len() ==> from_entry(self.entry@, new_deps, #[trigger] self.stack@[k]@),
                forall|k: int| i <= k < deps@.len() && resolvable@[k] ==> names(self.stack@).contains(#[trigger] deps@[k]@),
            decreases i,
        {
            i = i - 1;
            if resolvable[i] {
                let ghost before = self.stack@;
                self.stack.push(deps[i].clone());
                assert(self.stack@[before.len() as int]@ == deps@[i as int]@);
                assert(followed(deps@, resolvable@).contains(deps@[i as int]@));
                assert(new_deps.dom().contains(c));
                assert(new_deps[c].contains(deps@[i as int]@));
                assert forall|k: int| 0 <= k < self.stack@.len() implies from_entry(
                    self.entry@,
                    new_deps,
                    #[trigger] self.stack@[k]@,
                ) by {
                    if k < before.len() {
                        assert(self.stack@[k] == before[k]);
                    } else {
                        assert(self.stack@[k]@ == deps@[i as int]@);
                    }
                }
                assert forall|k: int| i < k < deps@.len() && resolvable@[k] implies names(self.stack@).contains(
                    #[trigger] deps@[k]@,
                ) by {
                    let j = choose|j: int| 0 <= j < before.len() && #[trigger] before[j]@ == deps@[k]@;
                    assert(self.stack@[j] == before[j]);
                }
            }
        }
        self.deps = Ghost(new_deps);
        self.current = Ghost(None);
        proof {
            let reached = self.reached();
            let pending = names(self.stack@);
            assert forall|m: Seq<char>, d: Seq<char>|
                new_deps.dom().contains(m) && #[trigger] new_deps[m].contains(d) implies reached.contains(d)
                || pending.contains(d) by {
                if m == c {
                    let k = choose|k: int|
                        0 <= k < deps@.len() && k < resolvable@.len() && resolvable@[k] && #[trigger] deps@[k]@ == d;
                    assert(names(self.stack@).contains(deps@[k]@));
                } else {
                    assert(old_deps[m].contains(d));
                    if names(old_stack).contains(d) {
                        let j = choose|j: int| 0 <= j < old_stack.len() && #[trigger] old_stack[j]@ == d;
                        assert(self.stack@[j] == old_stack[j]);
                    }
                }
            }
            assert forall|r: Seq<char>| #[trigger] reached.contains(r) implies from_entry(self.entry@, new_deps, r) by {
                assert(from_entry(self.entry@, old_deps, r));
                if r != self.entry@ {
                    let m = choose|m: Seq<char>| old_deps.dom().contains(m) && #[trigger] old_deps[m].contains(r);
                    assert(new_deps[m] == old_deps[m]);
                }
            }
            if names(old_stack).contains(self.entry@) {
                let j = choose|j: int| 0 <= j < old_stack.len() && #[trigger] old_stack[j]@ == self.entry@;
                assert(self.stack@[j] == old_stack[j]);
            }
        }
    }

    /// The modules reached, each once, in ascending order.
    pub fn modules(&self) -> (r: &Vec<String>)
        ensures
            names(r@) == self.reached(),
            sorted_names(r@),
            no_duplicates(r@),
    {
        self.reached.modules()
    }
}

} // verus!
