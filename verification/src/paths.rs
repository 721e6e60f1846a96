//! File system paths and the components that they are compared by.

use vstd::prelude::*;
use vstd::string::*;

use crate::scan;
use crate::text;

verus! {

/// The path starts at the root.
pub open spec fn absolute(path: Seq<char>) -> bool {
    path.len() > 0 && path[0] == '/'
}

/// The components among the parts between slashes: empty parts and dots are none, but for a dot
/// in front.
pub open spec fn kept(parts: Seq<Seq<char>>, first: bool) -> Seq<Seq<char>>
    decreases parts.len(),
{
    if parts.len() == 0 {
        Seq::empty()
    } else {
        let rest = kept(parts.skip(1), false);
        if parts[0].len() == 0 || (parts[0] == seq!['.'] && !first) {
            rest
        } else {
            seq![parts[0]] + rest
        }
    }
}

/// The components of a path; the root is a component of its own.
pub open spec fn components(path: Seq<char>) -> Seq<Seq<char>> {
    (if absolute(path) {
        seq![seq!['/']]
    } else {
        Seq::empty()
    }) + kept(scan::split_on(path, '/'), true)
}

/// The components of an optional path.
pub open spec fn opt_components(path: Option<String>) -> Option<Seq<Seq<char>>> {
    match path {
        Some(p) => Some(components(p@)),
        None => None,
    }
}

fn is_dot(part: &Vec<char>) -> (r: bool)
    ensures
        r == (part@ == seq!['.']),
{
    let r = part.len() == 1 && part[0] == '.';
    assert(r ==> part@ =~= seq!['.']);
    r
}

fn duplicate(part: &Vec<char>) -> (r: Vec<char>)
    ensures
        r@ == part@,
{
    let mut r: Vec<char> = Vec::new();
    let mut i: usize = 0;
    while i < part.len()
        invariant
            i <= part@.len(),
            r@ == part@.take(i as int),
        decreases part@.len() - i,
    {
        r.push(part[i]);
        i += 1;
        assert(r@ =~= part@.take(i as int));
    }
    assert(part@.take(part@.len() as int) =~= part@);
    r
}

pub fn is_absolute(path: &str) -> (r: bool)
    ensures
        r == absolute(path@),
{
    let chars = text::chars_of(path);
    chars.len() > 0 && chars[0] == '/'
}

/// The components of a path.
pub fn components_of(path: &str) -> (r: Vec<Vec<char>>)
    ensures
        scan::pieces(r@) == components(path@),
{
    let chars = text::chars_of(path);
    let parts = scan::split(&chars, '/');
    let ghost ps = scan::pieces(parts@);
    let mut r: Vec<Vec<char>> = Vec::new();
    if chars.len() > 0 && chars[0] == '/' {
        let mut root: Vec<char> = Vec::new();
        root.push('/');
        assert(root@ =~= seq!['/']);
        r.push(root);
    }
    let ghost head = scan::pieces(r@);
    proof {
        if absolute(path@) {
            assert(head =~= seq![seq!['/']]);
        } else {
            assert(head =~= Seq::empty());
        }
        assert(ps.skip(0) =~= ps);
        assert(scan::pieces(r@) + kept(ps.skip(0), true) =~= components(path@));
    }
    let mut i: usize = 0;
    while i < parts.len()
        invariant
            i <= parts@.len(),
            ps == scan::pieces(parts@),
            scan::pieces(r@) + kept(ps.skip(i as int), i == 0) == components(path@),
        decreases parts@.len() - i,
    {
        let ghost rest = ps.skip(i as int);
        proof {
            assert(rest[0] == parts@[i as int]@);
            assert(rest.skip(1) =~= ps.skip(i + 1));
        }
        if parts[i].len() == 0 || (is_dot(&parts[i]) && i != 0) {
            assert(kept(rest, i == 0) == kept(ps.skip(i + 1), false));
        } else {
            let ghost before = scan::pieces(r@);
            r.push(duplicate(&parts[i]));
            proof {
                let part = parts@[i as int]@;
                assert(kept(rest, i == 0) == seq![part] + kept(ps.skip(i + 1), false));
                assert(scan::pieces(r@) =~= before.push(part));
                assert(scan::pieces(r@) + kept(ps.skip(i + 1), false) =~= before + (seq![part]
                    + kept(ps.skip(i + 1), false)));
            }
        }
        i += 1;
    }
    proof {
        assert(ps.skip(parts@.len() as int) =~= Seq::empty());
        assert(scan::pieces(r@) =~= scan::pieces(r@) + kept(
            ps.skip(parts@.len() as int),
            parts@.len() == 0,
        ));
    }
    r
}

fn is_prefix(a: &Vec<Vec<char>>, b: &Vec<Vec<char>>) -> (r: bool)
    ensures
        r == scan::pieces(a@).is_prefix_of(scan::pieces(b@)),
{
    let ghost pa = scan::pieces(a@);
    let ghost pb = scan::pieces(b@);
    if a.len() > b.len() {
        return false;
    }
    let mut i: usize = 0;
    while i < a.len()
        invariant
            pa == scan::pieces(a@),
            pb == scan::pieces(b@),
            a@.len() <= b@.len(),
            i <= a@.len(),
            forall|j: int| 0 <= j < i ==> #[trigger] pa[j] == pb[j],
        decreases a@.len() - i,
    {
        if !scan::same_chars(&a[i], &b[i]) {
            proof {
                assert(pa[i as int] != pb[i as int]);
                assert(pb.take(pa.len() as int)[i as int] != pa[i as int]);
            }
            return false;
        }
        i += 1;
    }
    assert(pa =~= pb.take(pa.len() as int));
    true
}

/// The path names the base or something below it.
pub open spec fn below(path: Seq<char>, base: Seq<char>) -> bool {
    components(base).is_prefix_of(components(path))
}

/// Whether the path names the base or something below it.
pub fn starts_with(path: &str, base: &str) -> (r: bool)
    ensures
        r == below(path@, base@),
{
    is_prefix(&components_of(base), &components_of(path))
}

/// Whether two paths have the same components.
pub fn same_path(a: &str, b: &str) -> (r: bool)
    ensures
        r == (components(a@) == components(b@)),
{
    let x = components_of(a);
    let y = components_of(b);
    let r = x.len() == y.len() && is_prefix(&x, &y);
    proof {
        if r {
            assert(components(b@).take(components(a@).len() as int) =~= components(b@));
        } else if components(a@) == components(b@) {
            assert(scan::pieces(x@).len() == scan::pieces(y@).len());
            assert(components(b@).take(components(a@).len() as int) =~= components(b@));
        }
    }
    r
}

/// Whether two optional paths have the same components.
pub fn same_opt_path(a: &Option<String>, b: &Option<String>) -> (r: bool)
    ensures
        r == (opt_components(*a) == opt_components(*b)),
{
    match (a, b) {
        (Some(x), Some(y)) => same_path(x.as_str(), y.as_str()),
        (None, None) => true,
        _ => false,
    }
}

/// The path of a name inside a directory.
pub open spec fn joined(base: Seq<char>, name: Seq<char>) -> Seq<char> {
    if base.len() == 0 || base.last() == '/' {
        base + name
    } else {
        base + seq!['/'] + name
    }
}

/// The path of a relative name inside a directory.
pub fn join(base: &str, name: &str) -> (r: String)
    requires
        !absolute(name@),
    ensures
        r@ == joined(base@, name@),
{
    let chars = text::chars_of(base);
    let n = chars.len();
    if n == 0 || chars[n - 1] == '/' {
        text::join2(base, name)
    } else {
        proof {
            reveal_strlit("/");
            assert("/"@ =~= seq!['/']);
        }
        text::join3(base, "/", name)
    }
}

/// A path without the slashes at its end.
pub open spec fn trimmed(path: Seq<char>) -> Seq<char>
    decreases path.len(),
{
    if path.len() > 0 && path.last() == '/' {
        trimmed(path.drop_last())
    } else {
        path
    }
}

/// What rules on a path are filed under: the path without slashes at its end, or the root.
pub open spec fn rule_key(path: Seq<char>) -> Seq<char> {
    if trimmed(path).len() == 0 && path.len() > 0 && path[0] == '/' {
        seq!['/']
    } else {
        trimmed(path)
    }
}

/// The key that rules on a path are filed under.
pub fn path_key(path: &str) -> (r: String)
    ensures
        r@ == rule_key(path@),
{
    let chars = text::chars_of(path);
    let mut end: usize = chars.len();
    assert(path@.take(path@.len() as int) =~= path@);
    while end > 0 && chars[end - 1] == '/'
        invariant
            chars@ == path@,
            end <= chars@.len(),
            trimmed(path@) == trimmed(path@.take(end as int)),
        decreases end,
    {
        assert(path@.take(end as int).drop_last() =~= path@.take(end - 1));
        end -= 1;
    }
    assert(trimmed(path@) == path@.take(end as int));
    if end == 0 && chars.len() > 0 && chars[0] == '/' {
        proof {
            reveal_strlit("/");
            assert("/"@ =~= seq!['/']);
        }
        "/".to_owned()
    } else {
        let r = path.substring_char(0, end);
        assert(r@ =~= path@.take(end as int));
        r.to_owned()
    }
}

/// Whether a character list spells a literal.
pub fn spells(part: &Vec<char>, literal: &str) -> (r: bool)
    ensures
        r == (part@ == literal@),
{
    scan::same_chars(part, &text::chars_of(literal))
}

} // verus!
