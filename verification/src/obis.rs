//! OBIS line structure: the five-component key before the first parenthesis
//! and the parenthesized value groups after it.
//!
//! A data line reads `<g>-<c>:<k1>.<k2>.<k3>(value)(value)...`. The code part
//! splits on `-`, `:` and `.` into exactly five small numbers; the value part
//! splits at every `)(` boundary into raw group strings.

use vstd::prelude::*;
use vstd::slice::slice_subrange;

use crate::error::DecodeError;
use crate::error::ErrorModel;
use crate::text::byte_views;
use crate::text::dec_value;
use crate::text::find_byte;
use crate::text::find_first;
use crate::text::is_dec_digits;
use crate::text::lemma_find_first;
use crate::text::parse_u64;
use crate::text::slice_to_vec;
use crate::text::strip_leading;
use crate::text::strip_trailing;
use crate::text::strip_ends;

verus! {

/// A delimiter inside an OBIS code: `-`, `:` or `.`.
pub open spec fn is_obis_delim(b: u8) -> bool {
    b == 45 || b == 58 || b == 46
}

/// The code split at every delimiter: `n` delimiters give `n + 1` tokens,
/// empty tokens kept.
pub open spec fn split_obis(s: Seq<u8>) -> Seq<Seq<u8>>
    decreases s.len(),
{
    if s.len() == 0 {
        seq![Seq::<u8>::empty()]
    } else if is_obis_delim(s[0]) {
        seq![Seq::<u8>::empty()] + split_obis(s.drop_first())
    } else {
        let rest = split_obis(s.drop_first());
        seq![seq![s[0]] + rest[0]] + rest.drop_first()
    }
}

/// A split always has at least one token.
pub proof fn lemma_split_obis_len(s: Seq<u8>)
    ensures
        split_obis(s).len() >= 1,
    decreases s.len(),
{
    if s.len() > 0 {
        lemma_split_obis_len(s.drop_first());
    }
}

/// The tokens still to come, with the partial token `p` glued onto the first.
spec fn glue(p: Seq<u8>, toks: Seq<Seq<u8>>) -> Seq<Seq<u8>> {
    seq![p + toks[0]] + toks.drop_first()
}

/// Splits the code part at every `-`, `:` and `.`.
pub fn obis_tokens(code: &[u8]) -> (r: Vec<Vec<u8>>)
    ensures
        byte_views(r@) == split_obis(code@),
{
    let mut done: Vec<Vec<u8>> = Vec::new();
    let mut cur: Vec<u8> = Vec::new();
    let mut i: usize = 0;
    proof {
        assert(code@.skip(0) =~= code@);
        assert(byte_views(done@) + glue(cur@, split_obis(code@)) =~~= glue(
            cur@,
            split_obis(code@),
        ));
    }
    while i < code.len()
        invariant
            0 <= i <= code@.len(),
            split_obis(code@) == byte_views(done@) + glue(cur@, split_obis(code@.skip(i as int))),
        decreases code@.len() - i,
    {
        let ghost pre_done = done@;
        let ghost pre_cur = cur@;
        let ghost suffix = code@.skip(i as int);
        let ghost rest = split_obis(code@.skip(i + 1));
        proof {
            assert(suffix.drop_first() =~= code@.skip(i + 1));
            assert(suffix[0] == code@[i as int]);
            lemma_split_obis_len(code@.skip(i + 1));
        }
        let b = code[i];
        if b == 45 || b == 58 || b == 46 {
            done.push(cur);
            cur = Vec::new();
            proof {
                assert(split_obis(suffix) == seq![Seq::<u8>::empty()] + rest);
                assert(glue(pre_cur, split_obis(suffix)) =~~= seq![pre_cur] + rest) by {
                    assert((seq![Seq::<u8>::empty()] + rest)[0] =~= Seq::<u8>::empty());
                    assert(pre_cur + Seq::<u8>::empty() =~= pre_cur);
                    assert((seq![Seq::<u8>::empty()] + rest).drop_first() =~= rest);
                };
                assert(glue(cur@, rest) =~~= rest) by {
                    assert(cur@ + rest[0] =~= rest[0]);
                    assert(seq![rest[0]] + rest.drop_first() =~= rest);
                };
                assert(byte_views(done@) =~~= byte_views(pre_done).push(pre_cur));
                assert(byte_views(pre_done) + (seq![pre_cur] + rest) =~~= byte_views(done@)
                    + glue(cur@, rest));
            }
        } else {
            cur.push(b);
            proof {
                assert(split_obis(suffix) == seq![seq![suffix[0]] + rest[0]]
                    + rest.drop_first());
                assert(glue(pre_cur, split_obis(suffix)) =~~= glue(cur@, rest)) by {
                    assert(cur@ =~= pre_cur.push(b));
                    assert((seq![seq![suffix[0]] + rest[0]] + rest.drop_first())[0] == seq![
                        suffix[0],
                    ] + rest[0]);
                    assert(pre_cur + (seq![suffix[0]] + rest[0]) =~= pre_cur.push(b) + rest[0]);
                    assert((seq![seq![suffix[0]] + rest[0]] + rest.drop_first()).drop_first()
                        =~= rest.drop_first());
                };
            }
        }
        i = i + 1;
    }
    proof {
        assert(code@.skip(code@.len() as int) =~= Seq::<u8>::empty());
    }
    let ghost pre_done = done@;
    let ghost pre_cur = cur@;
    done.push(cur);
    proof {
        assert(glue(pre_cur, split_obis(Seq::<u8>::empty())) =~~= seq![pre_cur]) by {
            assert(split_obis(Seq::<u8>::empty()) == seq![Seq::<u8>::empty()]);
            assert(seq![Seq::<u8>::empty()][0] =~= Seq::<u8>::empty());
            assert(pre_cur + Seq::<u8>::empty() =~= pre_cur);
            assert(seq![Seq::<u8>::empty()].drop_first() =~= Seq::<Seq<u8>>::empty());
            assert(seq![pre_cur + seq![Seq::<u8>::empty()][0]] + Seq::<Seq<u8>>::empty() =~~= seq![
                pre_cur,
            ]);
        };
        assert(byte_views(done@) =~~= byte_views(pre_done).push(pre_cur));
        assert(byte_views(pre_done) + seq![pre_cur] =~~= byte_views(done@));
    }
    done
}

/// Every token is a non-empty digit run whose value fits one byte.
pub open spec fn obis_token_ok(t: Seq<u8>) -> bool {
    is_dec_digits(t) && dec_value(t) <= 255
}

/// A well-formed OBIS code: exactly five tokens, each a small number.
pub open spec fn obis_key_ok(code: Seq<u8>) -> bool {
    let toks = split_obis(code);
    &&& toks.len() == 5
    &&& forall|i: int| 0 <= i < 5 ==> obis_token_ok(#[trigger] toks[i])
}

/// The five key components of a well-formed code.
pub open spec fn obis_key_of(code: Seq<u8>) -> Seq<u8> {
    split_obis(code).map_values(|t: Seq<u8>| dec_value(t) as u8)
}

/// Parses the code part into its five-component key. A token that is not a
/// small number is reported before a wrong component count, as the offending
/// code text either way.
#[verifier::loop_isolation(false)]
pub fn parse_obis_key(code: &[u8]) -> (r: Result<[u8; 5], DecodeError>)
    ensures
        r is Ok <==> obis_key_ok(code@),
        r matches Ok(k) ==> k@ == obis_key_of(code@),
        !(forall|i: int|
            0 <= i < split_obis(code@).len() ==> obis_token_ok(#[trigger] split_obis(code@)[i]))
            ==> (r matches Err(e) && e.deep_view() == (ErrorModel::ObisBadComponent {
            code: code@,
        })),
        (forall|i: int|
            0 <= i < split_obis(code@).len() ==> obis_token_ok(#[trigger] split_obis(code@)[i]))
            && split_obis(code@).len() != 5 ==> (r matches Err(e) && e.deep_view() == (
        ErrorModel::ObisWrongArity { code: code@ })),
{
    let toks = obis_tokens(code);
    let ghost stoks = split_obis(code@);
    let mut comps: Vec<u8> = Vec::new();
    let mut i: usize = 0;
    while i < toks.len()
        invariant
            0 <= i <= toks@.len(),
            byte_views(toks@) == stoks,
            comps@.len() == i,
            forall|j: int| 0 <= j < i ==> obis_token_ok(#[trigger] stoks[j]),
            forall|j: int| 0 <= j < i ==> comps@[j] == dec_value(stoks[j]) as u8,
        decreases toks@.len() - i,
    {
        let t = &toks[i];
        proof {
            assert(t@ == stoks[i as int]);
        }
        match parse_u64(t.as_slice()) {
            Some(v) => {
                if v > 255 {
                    return Err(DecodeError::ObisBadComponent { code: slice_to_vec(code) });
                }
                comps.push(v as u8);
            },
            None => {
                proof {
                    if dec_value(t@) > u64::MAX {
                        assert(dec_value(t@) > 255);
                    }
                }
                return Err(DecodeError::ObisBadComponent { code: slice_to_vec(code) });
            },
        }
        i = i + 1;
    }
    if comps.len() != 5 {
        return Err(DecodeError::ObisWrongArity { code: slice_to_vec(code) });
    }
    let key: [u8; 5] = [comps[0], comps[1], comps[2], comps[3], comps[4]];
    proof {
        assert(key@ =~= obis_key_of(code@));
    }
    Ok(key)
}

/// The boundary between two value groups: `)(`.
pub open spec fn is_group_boundary(s: Seq<u8>) -> bool {
    s.len() >= 2 && s[0] == 41 && s[1] == 40
}

/// The stripped value part split at every `)(` boundary, leftmost first.
pub open spec fn split_groups(s: Seq<u8>) -> Seq<Seq<u8>>
    decreases s.len(),
{
    if s.len() == 0 {
        seq![Seq::<u8>::empty()]
    } else if is_group_boundary(s) {
        seq![Seq::<u8>::empty()] + split_groups(s.skip(2))
    } else {
        let rest = split_groups(s.drop_first());
        seq![seq![s[0]] + rest[0]] + rest.drop_first()
    }
}

/// A split always has at least one group.
pub proof fn lemma_split_groups_len(s: Seq<u8>)
    ensures
        split_groups(s).len() >= 1,
    decreases s.len(),
{
    if s.len() > 0 {
        if is_group_boundary(s) {
            lemma_split_groups_len(s.skip(2));
        } else {
            lemma_split_groups_len(s.drop_first());
        }
    }
}

/// The raw value groups of a value part: the part stripped of its leading
/// `(` and trailing `)` runs, then split at every `)(` boundary.
pub open spec fn groups_of(vals: Seq<u8>) -> Seq<Seq<u8>> {
    split_groups(strip_trailing(strip_leading(vals, 40), 41))
}

/// Splits the value part of a line (everything from its first `(` on) into
/// its raw value groups.
pub fn parse_groups(vals: &[u8]) -> (r: Vec<Vec<u8>>)
    ensures
        byte_views(r@) == groups_of(vals@),
        r@.len() >= 1,
{
    let body = strip_ends(vals, 40, 41);
    let ghost sbody = body@;
    let mut done: Vec<Vec<u8>> = Vec::new();
    let mut cur: Vec<u8> = Vec::new();
    let mut i: usize = 0;
    proof {
        assert(sbody.skip(0) =~= sbody);
        assert(byte_views(done@) + glue(cur@, split_groups(sbody)) =~~= glue(
            cur@,
            split_groups(sbody),
        ));
    }
    while i < body.len()
        invariant
            0 <= i <= sbody.len(),
            body@ == sbody,
            split_groups(sbody) == byte_views(done@) + glue(
                cur@,
                split_groups(sbody.skip(i as int)),
            ),
        decreases sbody.len() - i,
    {
        let ghost pre_done = done@;
        let ghost pre_cur = cur@;
        let ghost suffix = sbody.skip(i as int);
        let b = body[i];
        if b == 41 && i + 1 < body.len() && body[i + 1] == 40 {
            let ghost rest = split_groups(sbody.skip(i + 2));
            proof {
                assert(suffix.skip(2) =~= sbody.skip(i + 2));
                assert(suffix[0] == sbody[i as int] && suffix[1] == sbody[i + 1]);
                assert(is_group_boundary(suffix));
                lemma_split_groups_len(sbody.skip(i + 2));
            }
            done.push(cur);
            cur = Vec::new();
            proof {
                assert(split_groups(suffix) == seq![Seq::<u8>::empty()] + rest);
                assert(glue(pre_cur, split_groups(suffix)) =~~= seq![pre_cur] + rest) by {
                    assert((seq![Seq::<u8>::empty()] + rest)[0] =~= Seq::<u8>::empty());
                    assert(pre_cur + Seq::<u8>::empty() =~= pre_cur);
                    assert((seq![Seq::<u8>::empty()] + rest).drop_first() =~= rest);
                };
                assert(glue(cur@, rest) =~~= rest) by {
                    assert(cur@ + rest[0] =~= rest[0]);
                    assert(seq![rest[0]] + rest.drop_first() =~= rest);
                };
                assert(byte_views(done@) =~~= byte_views(pre_done).push(pre_cur));
                assert(byte_views(pre_done) + (seq![pre_cur] + rest) =~~= byte_views(done@)
                    + glue(cur@, rest));
            }
            i = i + 2;
        } else {
            let ghost rest = split_groups(sbody.skip(i + 1));
            proof {
                assert(suffix.drop_first() =~= sbody.skip(i + 1));
                assert(suffix[0] == sbody[i as int]);
                if suffix.len() >= 2 {
                    assert(suffix[1] == sbody[i + 1]);
                }
                assert(!is_group_boundary(suffix));
                lemma_split_groups_len(sbody.skip(i + 1));
            }
            cur.push(b);
            proof {
                assert(split_groups(suffix) == seq![seq![suffix[0]] + rest[0]]
                    + rest.drop_first());
                assert(glue(pre_cur, split_groups(suffix)) =~~= glue(cur@, rest)) by {
                    assert(cur@ =~= pre_cur.push(b));
                    assert((seq![seq![suffix[0]] + rest[0]] + rest.drop_first())[0] == seq![
                        suffix[0],
                    ] + rest[0]);
                    assert(pre_cur + (seq![suffix[0]] + rest[0]) =~= pre_cur.push(b) + rest[0]);
                    assert((seq![seq![suffix[0]] + rest[0]] + rest.drop_first()).drop_first()
                        =~= rest.drop_first());
                };
            }
            i = i + 1;
        }
    }
    proof {
        assert(sbody.skip(sbody.len() as int) =~= Seq::<u8>::empty());
    }
    let ghost pre_done = done@;
    let ghost pre_cur = cur@;
    done.push(cur);
    proof {
        assert(glue(pre_cur, split_groups(Seq::<u8>::empty())) =~~= seq![pre_cur]) by {
            assert(split_groups(Seq::<u8>::empty()) == seq![Seq::<u8>::empty()]);
            assert(seq![Seq::<u8>::empty()][0] =~= Seq::<u8>::empty());
            assert(pre_cur + Seq::<u8>::empty() =~= pre_cur);
            assert(seq![Seq::<u8>::empty()].drop_first() =~= Seq::<Seq<u8>>::empty());
            assert(seq![pre_cur + seq![Seq::<u8>::empty()][0]] + Seq::<Seq<u8>>::empty() =~~= seq![
                pre_cur,
            ]);
        };
        assert(byte_views(done@) =~~= byte_views(pre_done).push(pre_cur));
        assert(byte_views(pre_done) + seq![pre_cur] =~~= byte_views(done@));
    }
    done
}

/// Splits a data line at its first `(` into the code part and the value
/// part; the value part keeps the parenthesis. A line without `(` carries no
/// value and is rejected.
pub fn split_line<'a>(line: &'a [u8]) -> (r: Result<(&'a [u8], &'a [u8]), DecodeError>)
    ensures
        r is Ok <==> find_first(line@, 40) is Some,
        r matches Ok((c, v)) ==> find_first(line@, 40) matches Some(i) && c@ == line@.take(i)
            && v@ == line@.skip(i),
        r matches Err(e) ==> e.deep_view() == (ErrorModel::MissingParenthesis { line: line@ }),
{
    match find_byte(line, 40) {
        Some(i) => {
            proof {
                lemma_find_first(line@, 40);
            }
            let n = line.len();
            let code = slice_subrange(line, 0, i);
            let vals = slice_subrange(line, i, n);
            Ok((code, vals))
        },
        None => Err(DecodeError::MissingParenthesis { line: slice_to_vec(line) }),
    }
}

} // verus!
