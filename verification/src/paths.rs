//! Windows paths compared the way `Path` compares them: by components.

use vstd::prelude::*;

use crate::foreground::is_separator;
use crate::text::chars_of;

verus! {

/// The pieces of `s` between separators (`\` or `/`), empty pieces
/// included; there is always at least one piece.
pub open spec fn path_pieces(s: Seq<char>) -> Seq<Seq<char>>
    decreases s.len(),
{
    if s.len() == 0 {
        seq![Seq::<char>::empty()]
    } else {
        let init = path_pieces(s.drop_last());
        if is_separator(s.last()) {
            init.push(Seq::<char>::empty())
        } else {
            init.update(init.len() - 1, init.last().push(s.last()))
        }
    }
}

/// A piece that names a component: not empty and not `.`.
pub open spec fn names_component(piece: Seq<char>) -> bool {
    piece.len() > 0 && piece != seq!['.']
}

/// The pieces that name components, in order.
pub open spec fn kept_pieces(pieces: Seq<Seq<char>>) -> Seq<Seq<char>>
    decreases pieces.len(),
{
    if pieces.len() == 0 {
        Seq::empty()
    } else {
        let init = kept_pieces(pieces.drop_last());
        if names_component(pieces.last()) {
            init.push(pieces.last())
        } else {
            init
        }
    }
}

/// The leading piece with its drive letter, if any, in upper case
/// (`c:` and `C:` are the same drive).
pub open spec fn drive_upper(piece: Seq<char>) -> Seq<char> {
    if piece.len() >= 2 && piece[1] == ':' && 'a' <= piece[0] && piece[0] <= 'z' {
        piece.update(0, ((piece[0] as u32) - 32) as char)
    } else {
        piece
    }
}

/// Whether `s` starts with two separators (a network path `\\server\share`).
pub open spec fn starts_unc(s: Seq<char>) -> bool {
    s.len() >= 2 && is_separator(s[0]) && is_separator(s[1])
}

/// The components of a Windows path, as `Path` compares them: `\` and `/`
/// are the same separator, repeated separators count once, interior `.`
/// parts and a trailing separator are ignored, and the drive letter's case
/// does not matter. The leading part is kept as written (empty for a path
/// starting at the root, two empty parts for a network path), so that
/// `C:\a`, `C:a`, `\a` and `a` stay apart.
pub open spec fn path_components(s: Seq<char>) -> Seq<Seq<char>> {
    let pieces = path_pieces(s);
    if starts_unc(s) {
        seq![Seq::<char>::empty(), Seq::<char>::empty()] + kept_pieces(pieces.skip(2))
    } else {
        seq![drive_upper(pieces[0])] + kept_pieces(pieces.skip(1))
    }
}

proof fn lemma_path_pieces_len(s: Seq<char>)
    ensures
        path_pieces(s).len() >= 1,
    decreases s.len(),
{
    if s.len() > 0 {
        lemma_path_pieces_len(s.drop_last());
    }
}

proof fn lemma_unc_pieces(s: Seq<char>)
    requires
        starts_unc(s),
    ensures
        path_pieces(s).len() >= 3,
        path_pieces(s)[0].len() == 0,
        path_pieces(s)[1].len() == 0,
    decreases s.len(),
{
    if s.len() > 2 {
        lemma_unc_pieces(s.drop_last());
        lemma_path_pieces_len(s.drop_last());
    } else {
        let s1 = s.drop_last();
        assert(s1.drop_last() =~= Seq::<char>::empty());
        assert(s1.last() == s[0]);
        assert(s.last() == s[1]);
        assert(path_pieces(s1.drop_last()) == seq![Seq::<char>::empty()]);
        assert(path_pieces(s1) == seq![Seq::<char>::empty()].push(Seq::<char>::empty()));
    }
}

/// Whether two character vectors hold the same characters.
fn same_chars(a: &Vec<char>, b: &Vec<char>) -> (r: bool)
    ensures
        r == (a@ == b@),
{
    if a.len() != b.len() {
        return false;
    }
    let n = a.len();
    let mut i: usize = 0;
    while i < n
        invariant
            n == a.len(),
            n == b.len(),
            i <= n,
            forall|j: int| 0 <= j < i ==> a@[j] == b@[j],
        decreases n - i,
    {
        if a[i] != b[i] {
            return false;
        }
        i = i + 1;
    }
    assert(a@ =~= b@);
    true
}

/// The pieces of the characters `cs` (see `path_pieces`).
fn split_pieces(cs: &Vec<char>) -> (r: Vec<Vec<char>>)
    ensures
        r@.len() == path_pieces(cs@).len(),
        forall|j: int| 0 <= j < r@.len() ==> #[trigger] r@[j]@ == path_pieces(cs@)[j],
{
    let mut done: Vec<Vec<char>> = Vec::new();
    let mut cur: Vec<char> = Vec::new();
    let n = cs.len();
    let mut i: usize = 0;
    while i < n
        invariant
            n == cs.len(),
            i <= n,
            path_pieces(cs@.take(i as int)).len() == done@.len() + 1,
            forall|j: int|
                0 <= j < done@.len() ==> #[trigger] done@[j]@ == path_pieces(cs@.take(i as int))[j],
            cur@ == path_pieces(cs@.take(i as int)).last(),
        decreases n - i,
    {
        let c = cs[i];
        let ghost before = cs@.take(i as int);
        assert(cs@.take(i + 1).drop_last() =~= before);
        assert(cs@.take(i + 1).last() == c);
        proof {
            lemma_path_pieces_len(before);
        }
        if c == '\\' || c == '/' {
            let finished = cur;
            done.push(finished);
            cur = Vec::new();
            assert(cur@ =~= Seq::<char>::empty());
        } else {
            cur.push(c);
        }
        i = i + 1;
    }
    assert(cs@.take(n as int) =~= cs@);
    done.push(cur);
    done
}

/// The pieces of `pieces` from `start` on that name components.
fn keep_from(pieces: &Vec<Vec<char>>, start: usize, ghost_pieces: Ghost<Seq<Seq<char>>>) -> (r: Vec<
    Vec<char>,
>)
    requires
        start <= pieces@.len(),
        ghost_pieces@.len() == pieces@.len(),
        forall|j: int| 0 <= j < pieces@.len() ==> #[trigger] pieces@[j]@ == ghost_pieces@[j],
    ensures
        r@.len() == kept_pieces(ghost_pieces@.skip(start as int)).len(),
        forall|j: int|
            0 <= j < r@.len() ==> #[trigger] r@[j]@ == kept_pieces(ghost_pieces@.skip(start as int))[j],
{
    let ghost g = ghost_pieces@;
    let mut r: Vec<Vec<char>> = Vec::new();
    let n = pieces.len();
    let mut i: usize = start;
    assert(g.skip(start as int).take(0) =~= Seq::<Seq<char>>::empty());
    while i < n
        invariant
            n == pieces@.len(),
            g.len() == n,
            start <= i <= n,
            forall|j: int| 0 <= j < n ==> #[trigger] pieces@[j]@ == g[j],
            r@.len() == kept_pieces(g.skip(start as int).take(i - start)).len(),
            forall|j: int|
                0 <= j < r@.len() ==> #[trigger] r@[j]@ == kept_pieces(
                    g.skip(start as int).take(i - start),
                )[j],
        decreases n - i,
    {
        let ghost before = g.skip(start as int).take(i - start);
        let ghost after = g.skip(start as int).take(i + 1 - start);
        assert(after.drop_last() =~= before);
        assert(after.last() == g[i as int]);
        let p = &pieces[i];
        let is_dot = p.len() == 1 && p[0] == '.';
        assert(is_dot == (p@ == seq!['.'])) by {
            if p@.len() == 1 && p@[0] == '.' {
                assert(p@ =~= seq!['.']);
            }
        }
        if p.len() > 0 && !is_dot {
            r.push(p.clone());
        }
        i = i + 1;
    }
    assert(g.skip(start as int).take(n - start) =~= g.skip(start as int));
    r
}

/// The components of the path `s` (see `path_components`).
pub fn path_components_of(s: &str) -> (r: Vec<Vec<char>>)
    ensures
        r@.len() == path_components(s@).len(),
        forall|j: int| 0 <= j < r@.len() ==> #[trigger] r@[j]@ == path_components(s@)[j],
{
    let cs = chars_of(s);
    let pieces = split_pieces(&cs);
    let ghost g = path_pieces(s@);
    proof {
        lemma_path_pieces_len(s@);
    }
    let unc = cs.len() >= 2 && (cs[0] == '\\' || cs[0] == '/') && (cs[1] == '\\' || cs[1] == '/');
    if unc {
        proof {
            lemma_unc_pieces(s@);
        }
        let rest = keep_from(&pieces, 2, Ghost(g));
        let mut r: Vec<Vec<char>> = Vec::new();
        r.push(Vec::new());
        r.push(Vec::new());
        let mut k: usize = 0;
        while k < rest.len()
            invariant
                k <= rest@.len(),
                r@.len() == 2 + k,
                r@[0]@ == Seq::<char>::empty(),
                r@[1]@ == Seq::<char>::empty(),
                forall|j: int| 0 <= j < k ==> #[trigger] r@[2 + j]@ == rest@[j]@,
            decreases rest@.len() - k,
        {
            r.push(rest[k].clone());
            k = k + 1;
        }
        let ghost want = path_components(s@);
        assert forall|j: int| 0 <= j < r@.len() implies #[trigger] r@[j]@ == want[j] by {
            if j >= 2 {
                assert(r@[2 + (j - 2)]@ == rest@[j - 2]@);
            }
        }
        r
    } else {
        let first = &pieces[0];
        let mut lead = first.clone();
        if lead.len() >= 2 && lead[1] == ':' && 'a' <= lead[0] && lead[0] <= 'z' {
            let c = lead[0];
            let upper = ((c as u32) - 32) as u8;
            lead.set(0, upper as char);
            assert(lead@ =~= drive_upper(g[0]));
        } else {
            assert(lead@ =~= drive_upper(g[0]));
        }
        let rest = keep_from(&pieces, 1, Ghost(g));
        let mut r: Vec<Vec<char>> = Vec::new();
        r.push(lead);
        let mut k: usize = 0;
        while k < rest.len()
            invariant
                k <= rest@.len(),
                r@.len() == 1 + k,
                r@[0]@ == drive_upper(g[0]),
                forall|j: int| 0 <= j < k ==> #[trigger] r@[1 + j]@ == rest@[j]@,
            decreases rest@.len() - k,
        {
            r.push(rest[k].clone());
            k = k + 1;
        }
        let ghost want = path_components(s@);
        assert forall|j: int| 0 <= j < r@.len() implies #[trigger] r@[j]@ == want[j] by {
            if j >= 1 {
                assert(r@[1 + (j - 1)]@ == rest@[j - 1]@);
            }
        }
        r
    }
}

/// Whether two Windows paths have the same components (see
/// `path_components`).
pub fn same_path(a: &str, b: &str) -> (r: bool)
    ensures
        r == (path_components(a@) == path_components(b@)),
{
    let ca = path_components_of(a);
    let cb = path_components_of(b);
    let ghost wa = path_components(a@);
    let ghost wb = path_components(b@);
    if ca.len() != cb.len() {
        return false;
    }
    let n = ca.len();
    let mut i: usize = 0;
    while i < n
        invariant
            n == ca@.len(),
            n == cb@.len(),
            n == wa.len(),
            n == wb.len(),
            wa == path_components(a@),
            wb == path_components(b@),
            i <= n,
            forall|j: int| 0 <= j < n ==> #[trigger] ca@[j]@ == wa[j],
            forall|j: int| 0 <= j < n ==> #[trigger] cb@[j]@ == wb[j],
            forall|j: int| 0 <= j < i ==> wa[j] == wb[j],
        decreases n - i,
    {
        if !same_chars(&ca[i], &cb[i]) {
            assert(ca@[i as int]@ != cb@[i as int]@);
            assert(wa[i as int] != wb[i as int]);
            return false;
        }
        i = i + 1;
    }
    assert(wa =~= wb);
    true
}

} // verus!
