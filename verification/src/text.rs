//! Whitespace normalization of decoded text: every run of whitespace
//! characters collapses to a single space before the text is exposed.

use vstd::prelude::*;

verus! {

/// The whitespace characters the decoded text may contain.
pub open spec fn is_ws(c: char) -> bool {
    c == ' ' || c == '\t' || c == '\n' || c == '\r' || c == '\u{b}' || c == '\u{c}'
}

/// Drops every leading whitespace character.
pub open spec fn drop_ws(s: Seq<char>) -> Seq<char>
    decreases s.len(),
{
    if s.len() > 0 && is_ws(s[0]) {
        drop_ws(s.drop_first())
    } else {
        s
    }
}

/// `drop_ws` never lengthens a sequence.
pub proof fn lemma_drop_ws_len(s: Seq<char>)
    ensures
        drop_ws(s).len() <= s.len(),
    decreases s.len(),
{
    if s.len() > 0 && is_ws(s[0]) {
        lemma_drop_ws_len(s.drop_first());
    }
}

/// What `drop_ws` returns is empty or starts with non-whitespace.
pub proof fn lemma_drop_ws_head(s: Seq<char>)
    ensures
        drop_ws(s).len() == 0 || !is_ws(drop_ws(s)[0]),
    decreases s.len(),
{
    if s.len() > 0 && is_ws(s[0]) {
        lemma_drop_ws_head(s.drop_first());
    }
}

/// The whitespace-collapsing transform: each maximal run of whitespace
/// becomes a single `' '`; every other character is kept as it stands.
pub open spec fn norm(s: Seq<char>) -> Seq<char>
    decreases s.len(),
{
    if s.len() == 0 {
        Seq::<char>::empty()
    } else if is_ws(s[0]) {
        proof {
            lemma_drop_ws_len(s.drop_first());
        }
        seq![' '].add(norm(drop_ws(s.drop_first())))
    } else {
        seq![s[0]].add(norm(s.drop_first()))
    }
}

/// Canonical text: every whitespace character is `' '` and no two
/// whitespace characters are adjacent.
pub open spec fn canonical(s: Seq<char>) -> bool {
    (forall|i: int| 0 <= i < s.len() && is_ws(#[trigger] s[i]) ==> s[i] == ' ') && (forall|i: int|
        0 <= i && i + 1 < s.len() && is_ws(#[trigger] s[i]) ==> !is_ws(s[i + 1]))
}

/// `norm` only produces canonical text.
pub proof fn lemma_norm_canonical(s: Seq<char>)
    ensures
        canonical(norm(s)),
        norm(s).len() == 0 ==> s.len() == 0,
        s.len() > 0 ==> norm(s).len() > 0 && (is_ws(s[0]) <==> norm(s)[0] == ' ' && is_ws(
            norm(s)[0],
        )) && (!is_ws(s[0]) ==> norm(s)[0] == s[0]),
    decreases s.len(),
{
    if s.len() == 0 {
    } else if is_ws(s[0]) {
        let rest = drop_ws(s.drop_first());
        lemma_drop_ws_len(s.drop_first());
        lemma_drop_ws_head(s.drop_first());
        lemma_norm_canonical(rest);
        let r = seq![' '].add(norm(rest));
        assert forall|i: int| 0 <= i < r.len() && is_ws(#[trigger] r[i]) implies r[i] == ' ' by {
            if i > 0 {
                assert(r[i] == norm(rest)[i - 1]);
            }
        }
        assert forall|i: int| 0 <= i && i + 1 < r.len() && is_ws(#[trigger] r[i]) implies !is_ws(
            r[i + 1],
        ) by {
            if i == 0 {
                assert(rest.len() > 0 ==> !is_ws(rest[0]));
                assert(r[1] == norm(rest)[0]);
            } else {
                assert(r[i] == norm(rest)[i - 1]);
                assert(r[i + 1] == norm(rest)[i]);
            }
        }
    } else {
        lemma_norm_canonical(s.drop_first());
        let r = seq![s[0]].add(norm(s.drop_first()));
        assert forall|i: int| 0 <= i < r.len() && is_ws(#[trigger] r[i]) implies r[i] == ' ' by {
            if i > 0 {
                assert(r[i] == norm(s.drop_first())[i - 1]);
            }
        }
        assert forall|i: int| 0 <= i && i + 1 < r.len() && is_ws(#[trigger] r[i]) implies !is_ws(
            r[i + 1],
        ) by {
            if i == 0 {
            } else {
                assert(r[i] == norm(s.drop_first())[i - 1]);
                assert(r[i + 1] == norm(s.drop_first())[i]);
            }
        }
    }
}

/// `norm` leaves canonical text unchanged.
pub proof fn lemma_norm_of_canonical(s: Seq<char>)
    requires
        canonical(s),
    ensures
        norm(s) == s,
    decreases s.len(),
{
    if s.len() == 0 {
        assert(norm(s) =~= s);
    } else {
        let rest = s.drop_first();
        assert forall|i: int| 0 <= i < rest.len() && is_ws(#[trigger] rest[i]) implies rest[i]
            == ' ' by {
            assert(rest[i] == s[i + 1]);
        }
        assert forall|i: int| 0 <= i && i + 1 < rest.len() && is_ws(#[trigger] rest[i]) implies !is_ws(
            rest[i + 1],
        ) by {
            assert(rest[i] == s[i + 1]);
            assert(rest[i + 1] == s[i + 2]);
        }
        lemma_norm_of_canonical(rest);
        if is_ws(s[0]) {
            assert(s[0] == ' ');
            assert(rest.len() > 0 ==> !is_ws(rest[0]));
            assert(drop_ws(rest) == rest);
            assert(seq![' '].add(norm(rest)) =~= s);
        } else {
            assert(seq![s[0]].add(norm(rest)) =~= s);
        }
    }
}

/// Collapsing whitespace twice is the same as collapsing it once.
pub proof fn lemma_normalize_idempotent(s: Seq<char>)
    ensures
        norm(norm(s)) == norm(s),
{
    lemma_norm_canonical(s);
    lemma_norm_of_canonical(norm(s));
}

/// Whether `c` is one of the whitespace characters `is_ws` names.
pub fn is_ws_char(c: char) -> (r: bool)
    ensures
        r == is_ws(c),
{
    c == ' ' || c == '\t' || c == '\n' || c == '\r' || c == '\u{b}' || c == '\u{c}'
}

/// Collapses every whitespace run of `s` to a single space.
pub fn normalize(s: &Vec<char>) -> (r: Vec<char>)
    ensures
        r@ == norm(s@),
{
    let n = s.len();
    let mut out: Vec<char> = Vec::new();
    let mut i: usize = 0;
    let mut in_run: bool = false;
    proof {
        assert(s@.skip(0) =~= s@);
        assert(out@.add(norm(s@)) =~= norm(s@));
    }
    while i < n
        invariant
            i <= n,
            n == s@.len(),
            if in_run {
                out@.add(norm(drop_ws(s@.skip(i as int)))) == norm(s@)
            } else {
                out@.add(norm(s@.skip(i as int))) == norm(s@)
            },
        decreases n - i,
    {
        let c = s[i];
        let ghost rem = s@.skip(i as int);
        proof {
            assert(rem[0] == c);
            assert(rem.drop_first() =~= s@.skip(i as int + 1));
        }
        if is_ws_char(c) {
            if !in_run {
                proof {
                    assert(norm(rem) == seq![' '].add(norm(drop_ws(rem.drop_first()))));
                    assert(out@.push(' ').add(norm(drop_ws(s@.skip(i as int + 1)))) =~= out@.add(
                        norm(rem),
                    ));
                }
                out.push(' ');
                in_run = true;
            } else {
                proof {
                    assert(drop_ws(rem) == drop_ws(rem.drop_first()));
                }
            }
        } else {
            proof {
                if in_run {
                    assert(drop_ws(rem) == rem);
                }
                assert(norm(rem) == seq![c].add(norm(rem.drop_first())));
                assert(out@.push(c).add(norm(s@.skip(i as int + 1))) =~= out@.add(norm(rem)));
            }
            out.push(c);
            in_run = false;
        }
        i = i + 1;
    }
    proof {
        assert(s@.skip(n as int) =~= Seq::<char>::empty());
        if in_run {
            assert(norm(drop_ws(s@.skip(n as int))) =~= Seq::<char>::empty());
        } else {
            assert(norm(s@.skip(n as int)) =~= Seq::<char>::empty());
        }
        assert(out@.add(Seq::<char>::empty()) =~= out@);
    }
    out
}

} // verus!
