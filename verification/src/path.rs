//! File paths, equal when they have the same components.
use crate::text::chars_of;
use vstd::prelude::*;

verus! {

/// A file path as text, its components separated by slashes.
#[derive(Debug)]
pub struct FilePath {
    pub text: String,
}

impl View for FilePath {
    type V = Seq<char>;

    open spec fn view(&self) -> Seq<char> {
        self.text@
    }
}

impl DeepView for FilePath {
    type V = Seq<char>;

    open spec fn deep_view(&self) -> Seq<char> {
        self@
    }
}

/// The stretches of `s` between its slashes, in order.
pub open spec fn pieces(s: Seq<char>) -> Seq<Seq<char>>
    decreases s.len(),
{
    if s.len() == 0 {
        seq![Seq::empty()]
    } else {
        let before = pieces(s.drop_last());
        if s.last() == '/' {
            before.push(Seq::empty())
        } else {
            before.drop_last().push(before.last().push(s.last()))
        }
    }
}

/// Whether a piece of a path names a step: neither nothing nor a lone dot.
pub open spec fn significant(piece: Seq<char>) -> bool {
    piece.len() > 0 && piece != seq!['.']
}

/// The pieces that name a step.
pub open spec fn significant_pieces(ps: Seq<Seq<char>>) -> Seq<Seq<char>> {
    ps.filter(|p: Seq<char>| significant(p))
}

/// What two writings of one path have in common.
#[verifier::ext_equal]
pub struct PathKey {
    /// The path starts at the root.
    pub rooted: bool,
    /// The path starts with a dot that stands for the current directory.
    pub dotted: bool,
    pub parts: Seq<Seq<char>>,
}

/// The components of the path `s`: repeated and trailing slashes do not count,
/// nor does a lone dot but at the start.
pub open spec fn path_key(s: Seq<char>) -> PathKey {
    PathKey {
        rooted: s.len() > 0 && s[0] == '/',
        dotted: s.len() > 0 && s[0] == '.' && (s.len() == 1 || s[1] == '/'),
        parts: significant_pieces(pieces(s)),
    }
}

proof fn lemma_significant_push(ps: Seq<Seq<char>>, p: Seq<char>)
    ensures
        significant_pieces(ps.push(p)) == if significant(p) {
            significant_pieces(ps).push(p)
        } else {
            significant_pieces(ps)
        },
{
    reveal(Seq::filter);
    assert(ps.push(p).drop_last() =~= ps);
}

struct Components {
    rooted: bool,
    dotted: bool,
    parts: Vec<Vec<char>>,
}

impl Components {
    spec fn parts_view(self) -> Seq<Seq<char>> {
        self.parts@.map_values(|p: Vec<char>| p@)
    }

    spec fn key(self) -> PathKey {
        PathKey { rooted: self.rooted, dotted: self.dotted, parts: self.parts_view() }
    }

    fn same(&self, other: &Components) -> (b: bool)
        ensures
            b == (self.key() == other.key()),
    {
        if self.rooted != other.rooted || self.dotted != other.dotted || self.parts.len()
            != other.parts.len() {
            assert(self.parts.len() == self.parts_view().len());
            assert(other.parts.len() == other.parts_view().len());
            return false;
        }
        let mut i: usize = 0;
        while i < self.parts.len()
            invariant
                i <= self.parts.len(),
                self.parts.len() == other.parts.len(),
                forall|j: int| 0 <= j < i ==> self.parts@[j]@ == other.parts@[j]@,
            decreases self.parts.len() - i,
        {
            if !same_chars(&self.parts[i], &other.parts[i]) {
                assert(self.parts_view()[i as int] != other.parts_view()[i as int]);
                return false;
            }
            i += 1;
        }
        assert(self.parts_view() =~= other.parts_view());
        true
    }
}

fn same_chars(a: &Vec<char>, b: &Vec<char>) -> (r: bool)
    ensures
        r == (a@ == b@),
{
    if a.len() != b.len() {
        return false;
    }
    let mut i: usize = 0;
    while i < a.len()
        invariant
            i <= a.len(),
            a.len() == b.len(),
            forall|j: int| 0 <= j < i ==> a@[j] == b@[j],
        decreases a.len() - i,
    {
        if a[i] != b[i] {
            return false;
        }
        i += 1;
    }
    assert(a@ =~= b@);
    true
}

fn is_significant(p: &Vec<char>) -> (b: bool)
    ensures
        b == significant(p@),
{
    let lone_dot = p.len() == 1 && p[0] == '.';
    assert(lone_dot == (p@ =~= seq!['.']));
    p.len() > 0 && !lone_dot
}

fn components(s: &Vec<char>) -> (c: Components)
    ensures
        c.key() == path_key(s@),
{
    let mut parts: Vec<Vec<char>> = Vec::new();
    let mut current: Vec<char> = Vec::new();
    let ghost mut done: Seq<Seq<char>> = Seq::empty();
    let mut i: usize = 0;
    proof {
        assert(s@.take(0) =~= Seq::<char>::empty());
        assert(done.push(current@) =~= seq![Seq::<char>::empty()]);
        reveal(Seq::filter);
        assert(parts@.map_values(|p: Vec<char>| p@) =~= significant_pieces(done));
    }
    while i < s.len()
        invariant
            i <= s.len(),
            pieces(s@.take(i as int)) == done.push(current@),
            parts@.map_values(|p: Vec<char>| p@) == significant_pieces(done),
        decreases s.len() - i,
    {
        let c = s[i];
        let ghost before = done.push(current@);
        proof {
            assert(s@.take(i + 1).drop_last() =~= s@.take(i as int));
            assert(s@.take(i + 1).last() == c);
        }
        if c == '/' {
            proof {
                lemma_significant_push(done, current@);
                done = before;
            }
            push_part(&mut parts, current);
            current = Vec::new();
        } else {
            current.push(c);
            assert(before.drop_last() =~= done);
        }
        i += 1;
        assert(pieces(s@.take(i as int)) =~= done.push(current@));
    }
    proof {
        assert(s@.take(s@.len() as int) =~= s@);
        lemma_significant_push(done, current@);
    }
    push_part(&mut parts, current);
    let rooted = s.len() > 0 && s[0] == '/';
    let dotted = s.len() > 0 && s[0] == '.' && (s.len() == 1 || s[1] == '/');
    Components { rooted, dotted, parts }
}

fn push_part(parts: &mut Vec<Vec<char>>, part: Vec<char>)
    ensures
        final(parts)@.map_values(|p: Vec<char>| p@) == if significant(part@) {
            old(parts)@.map_values(|p: Vec<char>| p@).push(part@)
        } else {
            old(parts)@.map_values(|p: Vec<char>| p@)
        },
{
    if is_significant(&part) {
        let ghost grown = old(parts)@.map_values(|p: Vec<char>| p@).push(part@);
        parts.push(part);
        assert(parts@.map_values(|p: Vec<char>| p@) =~= grown);
    }
}

impl FilePath {
    /// The path written as `text`.
    pub fn new(text: &str) -> (p: FilePath)
        ensures
            p@ == text@,
    {
        FilePath { text: text.to_owned() }
    }
}

impl Clone for FilePath {
    fn clone(&self) -> (p: FilePath)
        ensures
            p == *self,
    {
        FilePath { text: self.text.clone() }
    }
}

impl PartialEq for FilePath {
    fn eq(&self, other: &FilePath) -> (b: bool) {
        let a = components(&chars_of(self.text.as_str()));
        let b = components(&chars_of(other.text.as_str()));
        a.same(&b)
    }
}

impl vstd::std_specs::cmp::PartialEqSpecImpl for FilePath {
    open spec fn obeys_eq_spec() -> bool {
        true
    }

    open spec fn eq_spec(&self, other: &FilePath) -> bool {
        path_key(self@) == path_key(other@)
    }
}

impl Eq for FilePath {

}

proof fn lemma_pieces_concat(a: Seq<char>, b: Seq<char>)
    ensures
        pieces(a.push('/') + b) == pieces(a) + pieces(b),
        pieces(b).len() > 0,
    decreases b.len(),
{
    let whole = a.push('/') + b;
    if b.len() == 0 {
        assert(whole =~= a.push('/'));
        assert(whole.drop_last() =~= a);
        assert(pieces(whole) =~= pieces(a) + pieces(b));
    } else {
        lemma_pieces_concat(a, b.drop_last());
        assert(whole.drop_last() =~= a.push('/') + b.drop_last());
        assert(pieces(whole) =~= pieces(a) + pieces(b));
    }
}

/// A slash more or less at the end of a path does not count.
pub proof fn law_trailing_slash(s: Seq<char>)
    requires
        s.len() > 0,
    ensures
        path_key(s.push('/')) == path_key(s),
{
    assert(s.push('/').drop_last() =~= s);
    lemma_significant_push(pieces(s), Seq::empty());
}

/// A slash repeated in a path counts once.
pub proof fn law_repeated_slash(a: Seq<char>, b: Seq<char>)
    ensures
        path_key(a.push('/').push('/') + b) == path_key(a.push('/') + b),
{
    let e = Seq::<char>::empty();
    lemma_pieces_concat(a.push('/'), b);
    lemma_pieces_concat(a, b);
    assert(a.push('/').drop_last() =~= a);
    assert(pieces(a.push('/')) == pieces(a).push(e));
    lemma_significant_push(pieces(a), e);
    lemma_significant_concat(pieces(a).push(e), pieces(b));
    lemma_significant_concat(pieces(a), pieces(b));
}

/// A lone dot behind a slash does not count.
pub proof fn law_lone_dot(a: Seq<char>, b: Seq<char>)
    ensures
        path_key(a.push('/').push('.').push('/') + b) == path_key(a.push('/') + b),
{
    let dot = seq!['.'];
    lemma_pieces_concat(a.push('/').push('.'), b);
    lemma_pieces_concat(a, b);
    lemma_pieces_concat(a, dot);
    assert(a.push('/') + dot =~= a.push('/').push('.'));
    assert(dot.drop_last() =~= Seq::<char>::empty());
    reveal_with_fuel(pieces, 2);
    assert(Seq::<char>::empty().push('.') =~= dot);
    assert(pieces(dot) =~= seq![dot]);
    assert(pieces(a) + seq![dot] =~= pieces(a).push(dot));
    lemma_significant_push(pieces(a), dot);
    lemma_significant_concat(pieces(a).push(dot), pieces(b));
    lemma_significant_concat(pieces(a), pieces(b));
}

proof fn lemma_significant_concat(a: Seq<Seq<char>>, b: Seq<Seq<char>>)
    ensures
        significant_pieces(a + b) == significant_pieces(a) + significant_pieces(b),
{
    Seq::filter_distributes_over_add(a, b, |p: Seq<char>| significant(p));
}

/// A lone dot at the end, behind a slash, does not count.
pub proof fn law_final_dot(a: Seq<char>)
    ensures
        path_key(a.push('/').push('.')) == path_key(a.push('/')),
{
    let e = Seq::<char>::empty();
    law_lone_dot(a, e);
    assert(a.push('/').push('.').push('/') + e =~= a.push('/').push('.').push('/'));
    assert(a.push('/') + e =~= a.push('/'));
    law_trailing_slash(a.push('/').push('.'));
}

/// `m` can be the name of a file: it is not empty, no lone dot, and has no slash.
pub open spec fn file_name(m: Seq<char>) -> bool {
    m.len() > 0 && m != seq!['.'] && !m.contains('/')
}

/// The path that goes down the names `ns`, with a slash before each.
pub open spec fn descent(ns: Seq<Seq<char>>) -> Seq<char>
    decreases ns.len(),
{
    if ns.len() == 0 {
        Seq::empty()
    } else {
        descent(ns.drop_last()).push('/') + ns.last()
    }
}

proof fn lemma_pieces_name(m: Seq<char>)
    requires
        !m.contains('/'),
    ensures
        pieces(m) == seq![m],
    decreases m.len(),
{
    if m.len() > 0 {
        let t = m.drop_last();
        assert forall|c: char| t.contains(c) implies m.contains(c) by {
            let k = choose|k: int| 0 <= k < t.len() && t[k] == c;
            assert(m[k] == c);
        }
        lemma_pieces_name(t);
        assert(m.contains(m[m.len() - 1]));
        assert(t.push(m.last()) =~= m);
        assert(pieces(m) =~= seq![m]);
    } else {
        assert(m =~= Seq::<char>::empty());
    }
}

proof fn lemma_parts_below(d: Seq<char>, m: Seq<char>)
    requires
        file_name(m),
    ensures
        path_key(d.push('/') + m).parts == path_key(d.push('/')).parts.push(m),
        path_key(d.push('/')).parts == path_key(d).parts,
{
    lemma_pieces_concat(d, m);
    lemma_pieces_name(m);
    assert(pieces(d) + seq![m] =~= pieces(d).push(m));
    lemma_significant_push(pieces(d), m);
    assert(d.push('/').drop_last() =~= d);
    lemma_significant_push(pieces(d), Seq::empty());
}

proof fn lemma_parts_descent(p: Seq<char>, ns: Seq<Seq<char>>)
    requires
        forall|i: int| 0 <= i < ns.len() ==> file_name(#[trigger] ns[i]),
    ensures
        path_key(p + descent(ns)).parts == path_key(p).parts + ns,
    decreases ns.len(),
{
    if ns.len() == 0 {
        assert(p + descent(ns) =~= p);
        assert(path_key(p).parts + ns =~= path_key(p).parts);
    } else {
        let up = ns.drop_last();
        assert forall|i: int| 0 <= i < up.len() implies file_name(#[trigger] up[i]) by {
            assert(up[i] == ns[i]);
        }
        lemma_parts_descent(p, up);
        assert(file_name(ns[ns.len() - 1]));
        let d = p + descent(up);
        lemma_parts_below(d, ns.last());
        assert(p + descent(ns) =~= d.push('/') + ns.last());
        assert((path_key(p).parts + up).push(ns.last()) =~= path_key(p).parts + ns);
    }
}

/// A file is told by its name and its directory: two files are the same just if they
/// have the same name in the same directory.
pub proof fn law_name_and_directory(d: Seq<char>, m: Seq<char>, e: Seq<char>, n: Seq<char>)
    requires
        file_name(m),
        file_name(n),
    ensures
        path_key(d.push('/') + m) == path_key(e.push('/') + n) <==> m == n && path_key(d.push('/'))
            == path_key(e.push('/')),
{
    lemma_parts_below(d, m);
    lemma_parts_below(e, n);
    let a = path_key(d.push('/')).parts;
    let b = path_key(e.push('/')).parts;
    assert(a.push(m).drop_last() =~= a);
    assert(b.push(n).drop_last() =~= b);
    assert(a.push(m).last() == m);
    assert(b.push(n).last() == n);
}

/// Under one directory, what two lists of names lead down to is the same just if they
/// are the same names, as many and in the same order.
pub proof fn law_names_below(p: Seq<char>, a: Seq<Seq<char>>, b: Seq<Seq<char>>)
    requires
        forall|i: int| 0 <= i < a.len() ==> file_name(#[trigger] a[i]),
        forall|i: int| 0 <= i < b.len() ==> file_name(#[trigger] b[i]),
    ensures
        path_key(p + descent(a)) == path_key(p + descent(b)) <==> a == b,
{
    lemma_parts_descent(p, a);
    lemma_parts_descent(p, b);
    let k = path_key(p).parts;
    assert((k + a).skip(k.len() as int) =~= a);
    assert((k + b).skip(k.len() as int) =~= b);
}

/// Two relative paths are the same just if their names are, as many and in the same
/// order.
pub proof fn law_relative_names(
    m: Seq<char>,
    a: Seq<Seq<char>>,
    n: Seq<char>,
    b: Seq<Seq<char>>,
)
    requires
        file_name(m),
        file_name(n),
        forall|i: int| 0 <= i < a.len() ==> file_name(#[trigger] a[i]),
        forall|i: int| 0 <= i < b.len() ==> file_name(#[trigger] b[i]),
    ensures
        path_key(m + descent(a)) == path_key(n + descent(b)) <==> m == n && a == b,
{
    lemma_parts_descent(m, a);
    lemma_parts_descent(n, b);
    lemma_pieces_name(m);
    lemma_pieces_name(n);
    let e = Seq::<Seq<char>>::empty();
    assert(e.push(m) =~= seq![m]);
    assert(e.push(n) =~= seq![n]);
    reveal(Seq::filter);
    assert(significant_pieces(e) =~= e);
    lemma_significant_push(e, m);
    lemma_significant_push(e, n);
    assert((seq![m] + a)[0] == m);
    assert((seq![n] + b)[0] == n);
    assert((seq![m] + a).skip(1) =~= a);
    assert((seq![n] + b).skip(1) =~= b);
}

/// A path from the root is no path from elsewhere, and one that starts with a lone
/// dot is none that does not.
pub proof fn law_starts_apart(s: Seq<char>, t: Seq<char>)
    ensures
        s.len() > 0 && s[0] == '/' && (t.len() == 0 || t[0] != '/') ==> path_key(s) != path_key(t),
        (s == seq!['.'] || seq!['.', '/'].is_prefix_of(s)) && t != seq!['.'] && !seq![
            '.',
            '/',
        ].is_prefix_of(t) ==> path_key(s) != path_key(t),
{
    let start = seq!['.', '/'];
    if s == seq!['.'] || start.is_prefix_of(s) {
        assert(start.is_prefix_of(s) ==> s[0] == start[0] && s[1] == start[1]);
        assert(path_key(s).dotted);
    }
    if t != seq!['.'] && !start.is_prefix_of(t) {
        if path_key(t).dotted {
            if t.len() == 1 {
                assert(t =~= seq!['.']);
            } else {
                assert(t.take(2) =~= start);
            }
        }
    }
}

/// File paths compare equal just if what they are written as is one path.
pub proof fn law_path_eq(a: FilePath, b: FilePath)
    ensures
        vstd::std_specs::cmp::PartialEqSpec::eq_spec(&a, &b) <==> path_key(a.text@) == path_key(
            b.text@,
        ),
        a@ == a.text@,
        a.deep_view() == a.text@,
{
}

/// A path is what it is written as, and so is a copy of it.
pub proof fn law_path_as_written(text: &str, p: FilePath, c: FilePath)
    requires
        call_ensures(FilePath::new, (text,), p),
        call_ensures(FilePath::clone, (&p,), c),
    ensures
        p.text@ == text@,
        c.text@ == text@,
{
}

} // verus!
