//! Normalization of the window title reported by the remote process: the
//! raw title is split on runs of five spaces, empty segments are dropped,
//! the rest are trimmed of surrounding whitespace, and the pieces are joined
//! with two spaces.

use vstd::prelude::*;
use vstd::string::StrSliceExecFns;

verus! {

/// The whitespace characters trimming removes.
pub open spec fn is_title_space(c: char) -> bool {
    c == ' ' || c == '\t' || c == '\n' || c == '\r'
}

/// The five-space separator sequence.
pub open spec fn title_sep() -> Seq<char> {
    seq![' ', ' ', ' ', ' ', ' ']
}

/// The segments of `s` around five-space separators, `cur` being the
/// partial segment read so far.
pub open spec fn split_title(s: Seq<char>, cur: Seq<char>) -> Seq<Seq<char>>
    decreases s.len(),
{
    if s.len() == 0 {
        seq![cur]
    } else if s.len() >= 5 && s.subrange(0, 5) == title_sep() {
        seq![cur] + split_title(s.subrange(5, s.len() as int), Seq::empty())
    } else {
        split_title(s.drop_first(), cur.push(s[0]))
    }
}

/// `s` without leading whitespace.
pub open spec fn trim_start(s: Seq<char>) -> Seq<char>
    decreases s.len(),
{
    if s.len() > 0 && is_title_space(s[0]) {
        trim_start(s.drop_first())
    } else {
        s
    }
}

/// `s` without trailing whitespace.
pub open spec fn trim_end(s: Seq<char>) -> Seq<char>
    decreases s.len(),
{
    if s.len() > 0 && is_title_space(s.last()) {
        trim_end(s.drop_last())
    } else {
        s
    }
}

/// `s` without surrounding whitespace.
pub open spec fn trim(s: Seq<char>) -> Seq<char> {
    trim_end(trim_start(s))
}

/// The pieces joined with two spaces.
pub open spec fn join_two_spaces(parts: Seq<Seq<char>>) -> Seq<char>
    decreases parts.len(),
{
    if parts.len() == 0 {
        Seq::empty()
    } else if parts.len() == 1 {
        parts[0]
    } else {
        parts[0] + seq![' ', ' '] + join_two_spaces(parts.drop_first())
    }
}

/// The normalized title: segments split on five-space separators, empty
/// segments dropped, the rest trimmed, the pieces joined with two spaces.
pub open spec fn spec_normalize_title(s: Seq<char>) -> Seq<char> {
    join_two_spaces(
        split_title(s, Seq::empty()).filter(|p: Seq<char>| p.len() > 0).map_values(
            |p: Seq<char>| trim(p),
        ),
    )
}

/// Dropping `a` leading whitespace characters computes `trim_start`.
proof fn lemma_trim_start_skip(s: Seq<char>, a: int)
    requires
        0 <= a <= s.len(),
        forall|k: int| 0 <= k < a ==> is_title_space(s[k]),
        a < s.len() ==> !is_title_space(s[a]),
    ensures
        trim_start(s) == s.subrange(a, s.len() as int),
    decreases a,
{
    if a == 0 {
        assert(s.subrange(0, s.len() as int) =~= s);
    } else {
        lemma_trim_start_skip(s.drop_first(), a - 1);
        assert(s.drop_first().subrange(a - 1, s.drop_first().len() as int) =~= s.subrange(
            a,
            s.len() as int,
        ));
    }
}

/// Dropping trailing whitespace down to length `b` computes `trim_end`.
proof fn lemma_trim_end_take(s: Seq<char>, b: int)
    requires
        0 <= b <= s.len(),
        forall|k: int| b <= k < s.len() ==> is_title_space(s[k]),
        b > 0 ==> !is_title_space(s[b - 1]),
    ensures
        trim_end(s) == s.subrange(0, b),
    decreases s.len(),
{
    if s.len() > 0 && is_title_space(s.last()) {
        assert(b < s.len());
        lemma_trim_end_take(s.drop_last(), b);
        assert(s.drop_last().subrange(0, b) =~= s.subrange(0, b));
    } else {
        assert(b == s.len());
        assert(s.subrange(0, b) =~= s);
    }
}

/// Appending one more piece joins it after a two-space separator.
proof fn lemma_join_push(parts: Seq<Seq<char>>, x: Seq<char>)
    ensures
        join_two_spaces(parts.push(x)) == if parts.len() == 0 {
            x
        } else {
            join_two_spaces(parts) + seq![' ', ' '] + x
        },
    decreases parts.len(),
{
    if parts.len() == 0 {
        assert(parts.push(x)[0] =~= x);
    } else {
        assert(parts.push(x).drop_first() =~= parts.drop_first().push(x));
        lemma_join_push(parts.drop_first(), x);
        if parts.len() == 1 {
            assert(parts.drop_first().len() == 0);
            assert(join_two_spaces(parts.push(x)) == parts[0] + seq![' ', ' '] + x);
            assert(join_two_spaces(parts) == parts[0]);
        } else {
            assert(join_two_spaces(parts) + seq![' ', ' '] + x == parts[0] + seq![' ', ' '] + (
            join_two_spaces(parts.drop_first()) + seq![' ', ' '] + x));
        }
    }
}

/// Filtering distributes over push.
proof fn lemma_filter_push(parts: Seq<Seq<char>>, x: Seq<char>)
    ensures
        parts.push(x).filter(|p: Seq<char>| p.len() > 0) == if x.len() > 0 {
            parts.filter(|p: Seq<char>| p.len() > 0).push(x)
        } else {
            parts.filter(|p: Seq<char>| p.len() > 0)
        },
{
    reveal_with_fuel(Seq::filter, 2);
    assert(parts.push(x).drop_last() =~= parts);
}

/// Mapping distributes over push.
proof fn lemma_map_trim_push(parts: Seq<Seq<char>>, x: Seq<char>)
    ensures
        parts.push(x).map_values(|p: Seq<char>| trim(p)) == parts.map_values(
            |p: Seq<char>| trim(p),
        ).push(trim(x)),
{
    assert(parts.push(x).map_values(|p: Seq<char>| trim(p)) =~= parts.map_values(
        |p: Seq<char>| trim(p),
    ).push(trim(x)));
}

/// Whether trimming removes this character.
fn char_is_space(c: char) -> (r: bool)
    ensures
        r == is_title_space(c),
{
    c == ' ' || c == '\t' || c == '\n' || c == '\r'
}

/// Trim a segment of surrounding whitespace.
fn trim_exec(s: &str) -> (r: String)
    ensures
        r@ == trim(s@),
{
    let len: usize = s.unicode_len();
    let mut a: usize = 0;
    while a < len && char_is_space(s.get_char(a))
        invariant
            0 <= a <= len,
            len == s@.len(),
            forall|k: int| 0 <= k < a ==> is_title_space(s@[k]),
        decreases len - a,
    {
        a = a + 1;
    }
    let mut b: usize = len;
    while b > a && char_is_space(s.get_char(b - 1))
        invariant
            a <= b <= len,
            len == s@.len(),
            forall|k: int| 0 <= k < a ==> is_title_space(s@[k]),
            a < len ==> !is_title_space(s@[a as int]),
            forall|k: int| b <= k < len ==> is_title_space(s@[k]),
        decreases b,
    {
        b = b - 1;
    }
    let piece = s.substring_char(a, b);
    proof {
        lemma_trim_start_skip(s@, a as int);
        let ts = s@.subrange(a as int, len as int);
        let bb: int = b - a;
        assert(forall|k: int| bb <= k < ts.len() ==> is_title_space(#[trigger] ts[k]));
        if bb > 0 {
            assert(ts[bb - 1] == s@[b - 1]);
            assert(b > a);
            assert(!is_title_space(s@[b - 1]));
        }
        lemma_trim_end_take(ts, bb);
        assert(ts.subrange(0, bb) =~= s@.subrange(a as int, b as int));
    }
    piece.to_owned()
}

/// Normalize a reported title: split on five-space separators, drop empty
/// segments, trim the rest, join with two spaces.
pub fn normalize_title(title: &String) -> (r: String)
    ensures
        r@ == spec_normalize_title(title@),
{
    let s: &str = title.as_str();
    let len: usize = s.unicode_len();

    // Split into segments around five-space separators.
    let mut segs: Vec<String> = Vec::new();
    let mut seg_start: usize = 0;
    let mut i: usize = 0;
    proof {
        assert(s@.subrange(0, len as int) =~= s@);
        assert(s@.subrange(0, 0) =~= Seq::<char>::empty());
        assert(segs@.map_values(|x: String| x@) =~= Seq::<Seq<char>>::empty());
        assert(Seq::<Seq<char>>::empty() + split_title(s@, Seq::empty()) =~= split_title(
            s@,
            Seq::empty(),
        ));
    }
    while i < len
        invariant
            0 <= seg_start <= i <= len,
            len == s@.len(),
            split_title(s@, Seq::empty()) == segs@.map_values(|x: String| x@) + split_title(
                s@.subrange(i as int, len as int),
                s@.subrange(seg_start as int, i as int),
            ),
        decreases len - i,
    {
        let ghost rem: Seq<char> = s@.subrange(i as int, len as int);
        let ghost cur: Seq<char> = s@.subrange(seg_start as int, i as int);
        if len - i >= 5 && s.get_char(i) == ' ' && s.get_char(i + 1) == ' ' && s.get_char(i + 2)
            == ' ' && s.get_char(i + 3) == ' ' && s.get_char(i + 4) == ' ' {
            proof {
                assert(rem.len() >= 5);
                assert(rem.subrange(0, 5) =~= title_sep());
                assert(rem.subrange(5, rem.len() as int) =~= s@.subrange(
                    i + 5,
                    len as int,
                ));
                assert(split_title(rem, cur) == seq![cur] + split_title(
                    s@.subrange(i + 5, len as int),
                    Seq::empty(),
                ));
            }
            let piece = s.substring_char(seg_start, i);
            segs.push(piece.to_owned());
            proof {
                assert(segs@.map_values(|x: String| x@) =~= segs@.map_values(
                    |x: String| x@,
                ).drop_last().push(cur));
                assert(s@.subrange(i + 5, i + 5) =~= Seq::<char>::empty());
            }
            i = i + 5;
            seg_start = i;
        } else {
            proof {
                if rem.len() >= 5 && rem.subrange(0, 5) == title_sep() {
                    assert(rem[0] == s@[i as int] && rem[1] == s@[i + 1] && rem[2] == s@[i + 2]
                        && rem[3] == s@[i + 3] && rem[4] == s@[i + 4]);
                    assert(rem.subrange(0, 5)[0] == ' ' && rem.subrange(0, 5)[1] == ' '
                        && rem.subrange(0, 5)[2] == ' ' && rem.subrange(0, 5)[3] == ' '
                        && rem.subrange(0, 5)[4] == ' ');
                    assert(false);
                }
                assert(split_title(rem, cur) == split_title(rem.drop_first(), cur.push(rem[0])));
                assert(rem.drop_first() =~= s@.subrange(i + 1, len as int));
                assert(cur.push(rem[0]) =~= s@.subrange(seg_start as int, i + 1));
            }
            i = i + 1;
        }
    }
    let piece = s.substring_char(seg_start, len);
    segs.push(piece.to_owned());
    proof {
        assert(s@.subrange(len as int, len as int) =~= Seq::<char>::empty());
        assert(split_title(s@.subrange(len as int, len as int), s@.subrange(
            seg_start as int,
            len as int,
        )) == seq![s@.subrange(seg_start as int, len as int)]);
        assert(segs@.map_values(|x: String| x@) =~= split_title(s@, Seq::empty()));
    }

    // Drop empty segments, trim the rest, and join with two spaces.
    let mut r = String::new();
    let mut first = true;
    let mut j: usize = 0;
    while j < segs.len()
        invariant
            0 <= j <= segs@.len(),
            segs@.map_values(|x: String| x@) == split_title(s@, Seq::empty()),
            first == (segs@.map_values(|x: String| x@).take(j as int).filter(
                |p: Seq<char>| p.len() > 0,
            ).len() == 0),
            r@ == join_two_spaces(
                segs@.map_values(|x: String| x@).take(j as int).filter(
                    |p: Seq<char>| p.len() > 0,
                ).map_values(|p: Seq<char>| trim(p)),
            ),
        decreases segs@.len() - j,
    {
        let ghost all: Seq<Seq<char>> = segs@.map_values(|x: String| x@);
        let ghost donef: Seq<Seq<char>> = all.take(j as int).filter(|p: Seq<char>| p.len() > 0);
        let seg: &String = &segs[j];
        proof {
            assert(all.take(j + 1) =~= all.take(j as int).push(all[j as int]));
            lemma_filter_push(all.take(j as int), all[j as int]);
            assert(seg@ == all[j as int]);
        }
        if !seg.as_str().is_empty() {
            let piece = trim_exec(seg.as_str());
            proof {
                lemma_map_trim_push(donef, all[j as int]);
                lemma_join_push(donef.map_values(|p: Seq<char>| trim(p)), trim(all[j as int]));
            }
            if first {
                proof {
                    assert(donef.map_values(|p: Seq<char>| trim(p)).len() == 0);
                }
                r.append(piece.as_str());
                first = false;
            } else {
                proof {
                    assert(donef.len() > 0);
                    assert(donef.map_values(|p: Seq<char>| trim(p)).len() > 0);
                }
                r.append("  ");
                proof {
                    reveal_strlit("  ");
                    assert("  "@ =~= seq![' ', ' ']);
                }
                r.append(piece.as_str());
            }
        }
        j = j + 1;
    }
    proof {
        assert(segs@.map_values(|x: String| x@).take(segs@.len() as int) =~= segs@.map_values(
            |x: String| x@,
        ));
    }
    r
}

/// Whether a string is blank: empty once surrounding whitespace is removed.
pub fn trimmed_is_empty(s: &String) -> (r: bool)
    ensures
        r == (trim(s@).len() == 0),
{
    let t = trim_exec(s.as_str());
    t.as_str().is_empty()
}

} // verus!
