//! Laws of hotkey reading: a combination reads the same whatever the letter
//! case, the spaces around its tokens or at its ends, the empty `+` pieces
//! and the order of its tokens.

use vstd::prelude::*;

use vstd::multiset::Multiset;

use crate::hotkey::{
    combo_tokens, lemma_case_keeps_whitespace, lemma_combo_tokens_ignore_case,
    lemma_parse_combo_depends_only_on_tokens, parse_combo_spec, piece_tokens, split_spec,
};
use crate::text::{
    ascii_lower, ascii_lower_seq, is_whitespace_spec, trim_end_spec, trim_spec, trim_start_spec,
};

verus! {

broadcast use vstd::multiset::group_multiset_axioms;

/// Two combinations read alike: both are accepted or both refused, and when
/// accepted they give the same hotkey.
pub open spec fn reads_alike(a: Seq<char>, b: Seq<char>) -> bool {
    &&& (parse_combo_spec(a) is Ok) == (parse_combo_spec(b) is Ok)
    &&& parse_combo_spec(a) is Ok ==> parse_combo_spec(a) == parse_combo_spec(b)
}

/// The pieces joined with `+` between them.
pub open spec fn join_plus(pieces: Seq<Seq<char>>) -> Seq<char>
    decreases pieces.len(),
{
    if pieces.len() == 0 {
        Seq::empty()
    } else if pieces.len() == 1 {
        pieces[0]
    } else {
        join_plus(pieces.drop_last()).push('+') + pieces.last()
    }
}

/// A piece without `+`.
pub open spec fn plus_free(piece: Seq<char>) -> bool {
    forall|i: int| 0 <= i < piece.len() ==> piece[i] != '+'
}

/// Pieces none of which holds a `+`.
pub open spec fn all_plus_free(pieces: Seq<Seq<char>>) -> bool {
    forall|i: int| 0 <= i < pieces.len() ==> plus_free(#[trigger] pieces[i])
}

/// Each piece in lower case.
pub open spec fn lowered(pieces: Seq<Seq<char>>) -> Seq<Seq<char>> {
    pieces.map_values(|p: Seq<char>| ascii_lower_seq(p))
}

/// The token a piece contributes: itself trimmed, or nothing when blank.
pub open spec fn token_of(piece: Seq<char>) -> Multiset<Seq<char>> {
    if trim_spec(piece).len() == 0 {
        Multiset::empty()
    } else {
        Multiset::singleton(trim_spec(piece))
    }
}

proof fn lemma_piece_tokens_push(p: Seq<Seq<char>>, x: Seq<char>)
    ensures
        piece_tokens(p.push(x)) == piece_tokens(p).add(token_of(x)),
{
    assert(p.push(x).drop_last() =~= p);
    assert(piece_tokens(p.push(x)) =~= piece_tokens(p).add(token_of(x)));
}

proof fn lemma_piece_tokens_append(a: Seq<Seq<char>>, b: Seq<Seq<char>>)
    ensures
        piece_tokens(a + b) == piece_tokens(a).add(piece_tokens(b)),
    decreases b.len(),
{
    if b.len() == 0 {
        assert(a + b =~= a);
        assert(piece_tokens(a).add(piece_tokens(b)) =~= piece_tokens(a));
    } else {
        lemma_piece_tokens_append(a, b.drop_last());
        assert((a + b) =~= (a + b.drop_last()).push(b.last()));
        assert(b =~= b.drop_last().push(b.last()));
        lemma_piece_tokens_push(a + b.drop_last(), b.last());
        lemma_piece_tokens_push(b.drop_last(), b.last());
        assert(piece_tokens(a + b) =~= piece_tokens(a).add(piece_tokens(b)));
    }
}

proof fn lemma_piece_tokens_single(x: Seq<char>)
    ensures
        piece_tokens(seq![x]) == token_of(x),
{
    lemma_piece_tokens_push(Seq::empty(), x);
    assert(Seq::<Seq<char>>::empty().push(x) =~= seq![x]);
    assert(Multiset::<Seq<char>>::empty().add(token_of(x)) =~= token_of(x));
}

proof fn lemma_split_len(s: Seq<char>)
    ensures
        split_spec(s, '+').len() >= 1,
    decreases s.len(),
{
    if s.len() > 0 {
        lemma_split_len(s.drop_last());
    }
}

proof fn lemma_split_plus_free(t: Seq<char>)
    requires
        plus_free(t),
    ensures
        split_spec(t, '+') == seq![t],
    decreases t.len(),
{
    if t.len() > 0 {
        lemma_split_plus_free(t.drop_last());
        assert(t.drop_last().push(t.last()) =~= t);
        assert(seq![t.drop_last()].update(0, t.drop_last().push(t.last())) =~= seq![t]);
    } else {
        assert(t =~= Seq::<char>::empty());
    }
}

proof fn lemma_split_after_plus(s: Seq<char>, t: Seq<char>)
    requires
        plus_free(t),
    ensures
        split_spec(s.push('+') + t, '+') == split_spec(s, '+').push(t),
    decreases t.len(),
{
    let u = s.push('+') + t;
    if t.len() == 0 {
        assert(u =~= s.push('+'));
        assert(u.drop_last() =~= s);
        assert(t =~= Seq::<char>::empty());
    } else {
        lemma_split_after_plus(s, t.drop_last());
        assert(t[t.len() - 1] != '+');
        assert(t.drop_last().push(t.last()) =~= t);
        assert(u.drop_last() =~= s.push('+') + t.drop_last());
        assert(u.last() == t.last());
        let init = split_spec(s, '+').push(t.drop_last());
        assert(init.update(init.len() - 1, init.last().push(t.last())) =~= split_spec(s, '+').push(
            t,
        ));
    }
}

proof fn lemma_split_join(p: Seq<Seq<char>>)
    requires
        p.len() >= 1,
        all_plus_free(p),
    ensures
        split_spec(join_plus(p), '+') == p,
    decreases p.len(),
{
    if p.len() == 1 {
        assert(plus_free(p[0]));
        lemma_split_plus_free(p[0]);
        assert(p =~= seq![p[0]]);
    } else {
        let init = p.drop_last();
        assert(all_plus_free(init)) by {
            assert forall|i: int| 0 <= i < init.len() implies plus_free(#[trigger] init[i]) by {
                assert(init[i] == p[i]);
            }
        }
        lemma_split_join(init);
        assert(plus_free(p[p.len() - 1]));
        lemma_split_after_plus(join_plus(init), p.last());
        assert(init.push(p.last()) =~= p);
    }
}

/// Every combination is its `+`-separated pieces joined again with `+`, and
/// none of those pieces holds a `+`: the laws below, stated over pieces,
/// apply to any combination.
pub proof fn lemma_combo_is_join_of_pieces(c: Seq<char>)
    ensures
        join_plus(split_spec(c, '+')) == c,
        all_plus_free(split_spec(c, '+')),
    decreases c.len(),
{
    if c.len() == 0 {
        assert(join_plus(split_spec(c, '+')) =~= c);
    } else {
        let d = c.drop_last();
        lemma_combo_is_join_of_pieces(d);
        lemma_split_len(d);
        let init = split_spec(d, '+');
        let p = split_spec(c, '+');
        if c.last() == '+' {
            assert(p.drop_last() =~= init);
            assert(join_plus(p) =~= d.push('+'));
            assert(d.push('+') =~= c);
            assert forall|i: int| 0 <= i < p.len() implies plus_free(#[trigger] p[i]) by {
                if i < init.len() {
                    assert(p[i] == init[i]);
                }
            }
        } else {
            let k = init.len() - 1;
            let last = init.last().push(c.last());
            assert(p == init.update(k, last));
            if init.len() == 1 {
                assert(join_plus(init) == init[0]);
                assert(join_plus(p) == p[0]);
                assert(join_plus(p) =~= c);
            } else {
                assert(p.drop_last() =~= init.drop_last());
                assert(join_plus(p) =~= (join_plus(init.drop_last()).push('+') + init.last()).push(
                    c.last(),
                ));
                assert(join_plus(p) =~= c);
            }
            assert forall|i: int| 0 <= i < p.len() implies plus_free(#[trigger] p[i]) by {
                if i < k {
                    assert(p[i] == init[i]);
                } else {
                    assert(plus_free(init[k]));
                    assert forall|j: int| 0 <= j < p[i].len() implies p[i][j] != '+' by {
                        if j < init[k].len() {
                            assert(p[i][j] == init[k][j]);
                        }
                    }
                }
            }
        }
    }
}

proof fn lemma_lower_idempotent(c: char)
    ensures
        ascii_lower(ascii_lower(c)) == ascii_lower(c),
        (c == '+') == (ascii_lower(c) == '+'),
{
    if 'A' <= c && c <= 'Z' {
        assert('a' <= ascii_lower(c) && ascii_lower(c) <= 'z');
    }
}

proof fn lemma_lower_trim_start(s: Seq<char>)
    ensures
        ascii_lower_seq(trim_start_spec(s)) == trim_start_spec(ascii_lower_seq(s)),
    decreases s.len(),
{
    let l = ascii_lower_seq(s);
    if s.len() > 0 {
        assert(l[0] == ascii_lower(s[0]));
        lemma_lower_idempotent(s[0]);
        lemma_case_keeps_whitespace(s[0], ascii_lower(s[0]));
        if is_whitespace_spec(s[0]) {
            lemma_lower_trim_start(s.drop_first());
            assert(l.drop_first() =~= ascii_lower_seq(s.drop_first()));
        }
    } else {
        assert(l =~= Seq::<char>::empty());
    }
}

proof fn lemma_lower_trim_end(s: Seq<char>)
    ensures
        ascii_lower_seq(trim_end_spec(s)) == trim_end_spec(ascii_lower_seq(s)),
    decreases s.len(),
{
    let l = ascii_lower_seq(s);
    if s.len() > 0 {
        assert(l[l.len() - 1] == ascii_lower(s[s.len() - 1]));
        lemma_lower_idempotent(s.last());
        lemma_case_keeps_whitespace(s.last(), ascii_lower(s.last()));
        if is_whitespace_spec(s.last()) {
            lemma_lower_trim_end(s.drop_last());
            assert(l.drop_last() =~= ascii_lower_seq(s.drop_last()));
        }
    } else {
        assert(l =~= Seq::<char>::empty());
    }
}

/// Lowercasing and trimming can be done in either order.
proof fn lemma_lower_trim(s: Seq<char>)
    ensures
        ascii_lower_seq(trim_spec(s)) == trim_spec(ascii_lower_seq(s)),
{
    lemma_lower_trim_start(s);
    lemma_lower_trim_end(trim_start_spec(s));
}

proof fn lemma_trim_cons(w: char, x: Seq<char>)
    requires
        is_whitespace_spec(w),
    ensures
        trim_spec(seq![w] + x) == trim_spec(x),
{
    assert((seq![w] + x).drop_first() =~= x);
}

proof fn lemma_trim_start_snoc(x: Seq<char>, w: char)
    requires
        is_whitespace_spec(w),
    ensures
        trim_start_spec(x).len() == 0 ==> trim_start_spec(x.push(w)).len() == 0,
        trim_start_spec(x).len() != 0 ==> trim_start_spec(x.push(w)) == trim_start_spec(x).push(w),
    decreases x.len(),
{
    if x.len() == 0 {
        assert(x.push(w)[0] == w);
        assert(x.push(w).drop_first() =~= Seq::<char>::empty());
        assert(trim_start_spec(Seq::<char>::empty()).len() == 0);
    } else if !is_whitespace_spec(x[0]) {
        assert(x.push(w)[0] == x[0]);
    } else {
        assert(x.push(w)[0] == x[0]);
        assert(x.push(w).drop_first() =~= x.drop_first().push(w));
        lemma_trim_start_snoc(x.drop_first(), w);
    }
}

proof fn lemma_trim_snoc(x: Seq<char>, w: char)
    requires
        is_whitespace_spec(w),
    ensures
        trim_spec(x.push(w)) == trim_spec(x),
{
    lemma_trim_start_snoc(x, w);
    let t = trim_start_spec(x);
    if t.len() == 0 {
        assert(trim_start_spec(x.push(w)) =~= Seq::<char>::empty());
        assert(t =~= Seq::<char>::empty());
    } else {
        assert(t.push(w).drop_last() =~= t);
    }
}

proof fn lemma_split_cons(w: char, t: Seq<char>)
    requires
        w != '+',
    ensures
        split_spec(seq![w] + t, '+') == split_spec(t, '+').update(
            0,
            seq![w] + split_spec(t, '+')[0],
        ),
    decreases t.len(),
{
    lemma_split_len(t);
    let u = seq![w] + t;
    if t.len() == 0 {
        assert(u =~= seq![w]);
        assert(u.drop_last() =~= Seq::<char>::empty());
        assert(u.last() == w);
        assert(split_spec(u.drop_last(), '+') == seq![Seq::<char>::empty()]);
        assert(Seq::<char>::empty().push(w) =~= seq![w] + Seq::<char>::empty());
        assert(split_spec(t, '+') == seq![Seq::<char>::empty()]);
        assert(split_spec(u, '+') =~= split_spec(t, '+').update(0, seq![w] + split_spec(t, '+')[0]));
    } else {
        lemma_split_cons(w, t.drop_last());
        lemma_split_len(t.drop_last());
        assert(u.drop_last() =~= seq![w] + t.drop_last());
        assert(u.last() == t.last());
        let q = split_spec(t.drop_last(), '+');
        if t.last() == '+' {
            assert(split_spec(u, '+') =~= split_spec(t, '+').update(
                0,
                seq![w] + split_spec(t, '+')[0],
            ));
        } else {
            let k = q.len() - 1;
            if k == 0 {
                assert(seq![w] + q[0].push(t.last()) =~= (seq![w] + q[0]).push(t.last()));
            }
            assert(split_spec(u, '+') =~= split_spec(t, '+').update(
                0,
                seq![w] + split_spec(t, '+')[0],
            ));
        }
    }
}

proof fn lemma_piece_tokens_first(q: Seq<Seq<char>>, z: Seq<char>)
    requires
        q.len() >= 1,
        token_of(z) == token_of(q[0]),
    ensures
        piece_tokens(q.update(0, z)) == piece_tokens(q),
{
    assert(q =~= seq![q[0]] + q.skip(1));
    assert(q.update(0, z) =~= seq![z] + q.skip(1));
    lemma_piece_tokens_append(seq![q[0]], q.skip(1));
    lemma_piece_tokens_append(seq![z], q.skip(1));
    lemma_piece_tokens_single(q[0]);
    lemma_piece_tokens_single(z);
}

proof fn lemma_piece_tokens_last(q: Seq<Seq<char>>, z: Seq<char>)
    requires
        q.len() >= 1,
        token_of(z) == token_of(q.last()),
    ensures
        piece_tokens(q.update(q.len() - 1, z)) == piece_tokens(q),
{
    assert(q =~= q.drop_last().push(q.last()));
    assert(q.update(q.len() - 1, z) =~= q.drop_last().push(z));
    lemma_piece_tokens_push(q.drop_last(), q.last());
    lemma_piece_tokens_push(q.drop_last(), z);
}

proof fn lemma_tokens_trim_start(s: Seq<char>)
    ensures
        piece_tokens(split_spec(trim_start_spec(s), '+')) == piece_tokens(split_spec(s, '+')),
    decreases s.len(),
{
    if s.len() > 0 && is_whitespace_spec(s[0]) {
        let t = s.drop_first();
        lemma_tokens_trim_start(t);
        assert(s =~= seq![s[0]] + t);
        lemma_split_cons(s[0], t);
        lemma_split_len(t);
        let q = split_spec(t, '+');
        lemma_trim_cons(s[0], q[0]);
        lemma_piece_tokens_first(q, seq![s[0]] + q[0]);
    }
}

proof fn lemma_tokens_trim_end(s: Seq<char>)
    ensures
        piece_tokens(split_spec(trim_end_spec(s), '+')) == piece_tokens(split_spec(s, '+')),
    decreases s.len(),
{
    if s.len() > 0 && is_whitespace_spec(s.last()) {
        let d = s.drop_last();
        lemma_tokens_trim_end(d);
        lemma_split_len(d);
        let q = split_spec(d, '+');
        lemma_trim_snoc(q.last(), s.last());
        lemma_piece_tokens_last(q, q.last().push(s.last()));
    }
}

/// Trimming the whole combination changes no token.
proof fn lemma_tokens_trim(s: Seq<char>)
    ensures
        piece_tokens(split_spec(trim_spec(s), '+')) == piece_tokens(split_spec(s, '+')),
{
    lemma_tokens_trim_end(trim_start_spec(s));
    lemma_tokens_trim_start(s);
}

proof fn lemma_lower_join(p: Seq<Seq<char>>)
    ensures
        ascii_lower_seq(join_plus(p)) == join_plus(lowered(p)),
    decreases p.len(),
{
    if p.len() == 0 {
        assert(ascii_lower_seq(join_plus(p)) =~= join_plus(lowered(p)));
    } else if p.len() == 1 {
    } else {
        lemma_lower_join(p.drop_last());
        assert(lowered(p).drop_last() =~= lowered(p.drop_last()));
        lemma_lower_idempotent('+');
        assert(ascii_lower_seq(join_plus(p.drop_last()).push('+') + p.last()) =~= ascii_lower_seq(
            join_plus(p.drop_last()),
        ).push('+') + ascii_lower_seq(p.last()));
    }
}

proof fn lemma_lowered_plus_free(p: Seq<Seq<char>>)
    requires
        all_plus_free(p),
    ensures
        all_plus_free(lowered(p)),
{
    assert forall|i: int| 0 <= i < lowered(p).len() implies plus_free(#[trigger] lowered(p)[i]) by {
        assert(plus_free(p[i]));
        assert forall|j: int| 0 <= j < lowered(p)[i].len() implies lowered(p)[i][j] != '+' by {
            lemma_lower_idempotent(p[i][j]);
        }
    }
}

/// The tokens of joined pieces are those of each piece in lower case.
proof fn lemma_tokens_of_join(p: Seq<Seq<char>>)
    requires
        p.len() >= 1,
        all_plus_free(p),
    ensures
        combo_tokens(join_plus(p)) == piece_tokens(lowered(p)),
{
    let c = join_plus(p);
    lemma_lower_trim(c);
    lemma_tokens_trim(ascii_lower_seq(c));
    lemma_lower_join(p);
    lemma_lowered_plus_free(p);
    lemma_split_join(lowered(p));
}

proof fn lemma_token_of_lower(x: Seq<char>, y: Seq<char>)
    requires
        trim_spec(x) == trim_spec(y),
    ensures
        token_of(ascii_lower_seq(x)) == token_of(ascii_lower_seq(y)),
{
    lemma_lower_trim(x);
    lemma_lower_trim(y);
}

proof fn lemma_blank_lower(w: Seq<char>)
    requires
        trim_spec(w).len() == 0,
    ensures
        token_of(ascii_lower_seq(w)) == Multiset::<Seq<char>>::empty(),
{
    lemma_lower_trim(w);
}

proof fn lemma_lowered_concat(a: Seq<Seq<char>>, b: Seq<Seq<char>>)
    ensures
        lowered(a + b) == lowered(a) + lowered(b),
{
    assert(lowered(a + b) =~= lowered(a) + lowered(b));
}

/// Token order does not matter: swapping two neighbouring pieces of a
/// combination leaves its reading unchanged.
pub proof fn lemma_parse_combo_swap(a: Seq<Seq<char>>, x: Seq<char>, y: Seq<char>, b: Seq<Seq<char>>)
    requires
        all_plus_free(a + seq![x, y] + b),
    ensures
        reads_alike(join_plus(a + seq![x, y] + b), join_plus(a + seq![y, x] + b)),
{
    let p = a + seq![x, y] + b;
    let q = a + seq![y, x] + b;
    assert(all_plus_free(q)) by {
        assert forall|i: int| 0 <= i < q.len() implies plus_free(#[trigger] q[i]) by {
            if i == a.len() {
                assert(q[i] == p[i + 1]);
            } else if i == a.len() + 1 {
                assert(q[i] == p[i - 1]);
            } else {
                assert(q[i] == p[i]);
            }
        }
    }
    lemma_tokens_of_join(p);
    lemma_tokens_of_join(q);
    lemma_lowered_concat(a + seq![x, y], b);
    lemma_lowered_concat(a, seq![x, y]);
    lemma_lowered_concat(a + seq![y, x], b);
    lemma_lowered_concat(a, seq![y, x]);
    let la = lowered(a);
    let lb = lowered(b);
    let lx = ascii_lower_seq(x);
    let ly = ascii_lower_seq(y);
    assert(lowered(seq![x, y]) =~= seq![lx].push(ly));
    assert(lowered(seq![y, x]) =~= seq![ly].push(lx));
    lemma_piece_tokens_append(la + lowered(seq![x, y]), lb);
    lemma_piece_tokens_append(la, lowered(seq![x, y]));
    lemma_piece_tokens_append(la + lowered(seq![y, x]), lb);
    lemma_piece_tokens_append(la, lowered(seq![y, x]));
    lemma_piece_tokens_push(seq![lx], ly);
    lemma_piece_tokens_push(seq![ly], lx);
    lemma_piece_tokens_single(lx);
    lemma_piece_tokens_single(ly);
    assert(piece_tokens(lowered(p)) =~= piece_tokens(lowered(q)));
    lemma_parse_combo_depends_only_on_tokens(join_plus(p), join_plus(q));
}

/// Empty pieces do not matter: a blank piece (nothing but spaces) between
/// `+` signs, or at either end, leaves the reading unchanged.
pub proof fn lemma_parse_combo_blank_piece(a: Seq<Seq<char>>, w: Seq<char>, b: Seq<Seq<char>>)
    requires
        all_plus_free(a + seq![w] + b),
        a.len() + b.len() >= 1,
        trim_spec(w).len() == 0,
    ensures
        reads_alike(join_plus(a + seq![w] + b), join_plus(a + b)),
{
    let p = a + seq![w] + b;
    let q = a + b;
    assert(all_plus_free(q)) by {
        assert forall|i: int| 0 <= i < q.len() implies plus_free(#[trigger] q[i]) by {
            if i < a.len() {
                assert(q[i] == p[i]);
            } else {
                assert(q[i] == p[i + 1]);
            }
        }
    }
    lemma_tokens_of_join(p);
    lemma_tokens_of_join(q);
    lemma_lowered_concat(a + seq![w], b);
    lemma_lowered_concat(a, seq![w]);
    lemma_lowered_concat(a, b);
    assert(lowered(seq![w]) =~= seq![ascii_lower_seq(w)]);
    lemma_piece_tokens_append(lowered(a) + lowered(seq![w]), lowered(b));
    lemma_piece_tokens_append(lowered(a), lowered(seq![w]));
    lemma_piece_tokens_append(lowered(a), lowered(b));
    lemma_piece_tokens_single(ascii_lower_seq(w));
    lemma_blank_lower(w);
    assert(piece_tokens(lowered(p)) =~= piece_tokens(lowered(q)));
    lemma_parse_combo_depends_only_on_tokens(join_plus(p), join_plus(q));
}

/// Spaces do not matter: replacing a piece by one that trims to the same
/// text (spaces added or removed around a token, also at either end of the
/// combination) leaves the reading unchanged.
pub proof fn lemma_parse_combo_spaced_piece(
    a: Seq<Seq<char>>,
    x: Seq<char>,
    x2: Seq<char>,
    b: Seq<Seq<char>>,
)
    requires
        all_plus_free(a + seq![x] + b),
        plus_free(x2),
        trim_spec(x) == trim_spec(x2),
    ensures
        reads_alike(join_plus(a + seq![x] + b), join_plus(a + seq![x2] + b)),
{
    let p = a + seq![x] + b;
    let q = a + seq![x2] + b;
    assert(all_plus_free(q)) by {
        assert forall|i: int| 0 <= i < q.len() implies plus_free(#[trigger] q[i]) by {
            if i != a.len() {
                assert(q[i] == p[i]);
            }
        }
    }
    lemma_tokens_of_join(p);
    lemma_tokens_of_join(q);
    lemma_lowered_concat(a + seq![x], b);
    lemma_lowered_concat(a, seq![x]);
    lemma_lowered_concat(a + seq![x2], b);
    lemma_lowered_concat(a, seq![x2]);
    assert(lowered(seq![x]) =~= seq![ascii_lower_seq(x)]);
    assert(lowered(seq![x2]) =~= seq![ascii_lower_seq(x2)]);
    lemma_piece_tokens_append(lowered(a) + lowered(seq![x]), lowered(b));
    lemma_piece_tokens_append(lowered(a), lowered(seq![x]));
    lemma_piece_tokens_append(lowered(a) + lowered(seq![x2]), lowered(b));
    lemma_piece_tokens_append(lowered(a), lowered(seq![x2]));
    lemma_piece_tokens_single(ascii_lower_seq(x));
    lemma_piece_tokens_single(ascii_lower_seq(x2));
    lemma_token_of_lower(x, x2);
    lemma_parse_combo_depends_only_on_tokens(join_plus(p), join_plus(q));
}

/// Letter case does not matter: combinations that differ only in the case
/// of ASCII letters read alike.
pub proof fn lemma_parse_combo_case(c1: Seq<char>, c2: Seq<char>)
    requires
        ascii_lower_seq(c1) == ascii_lower_seq(c2),
    ensures
        reads_alike(c1, c2),
{
    lemma_combo_tokens_ignore_case(c1, c2);
    lemma_parse_combo_depends_only_on_tokens(c1, c2);
}

} // verus!
