use vstd::prelude::*;
use vstd::string::StrSliceExecFns;

use crate::errors::PhoneBookError;
use crate::records::Address;
use crate::records::AddressV;

verus! {

/// The whitespace that field trimming strips from either end.
pub open spec fn is_space(c: char) -> bool {
    c == ' ' || c == '\t' || c == '\n' || c == '\r'
}

/// `s` without its leading whitespace.
pub open spec fn trim_start_spec(s: Seq<char>) -> Seq<char>
    decreases s.len(),
{
    if s.len() > 0 && is_space(s[0]) {
        trim_start_spec(s.skip(1))
    } else {
        s
    }
}

/// `s` without its trailing whitespace.
pub open spec fn trim_end_spec(s: Seq<char>) -> Seq<char>
    decreases s.len(),
{
    if s.len() > 0 && is_space(s.last()) {
        trim_end_spec(s.drop_last())
    } else {
        s
    }
}

/// `s` without leading and trailing whitespace.
pub open spec fn trim_spec(s: Seq<char>) -> Seq<char> {
    trim_end_spec(trim_start_spec(s))
}

/// How often `c` occurs in `s`.
pub open spec fn count_char(s: Seq<char>, c: char) -> int
    decreases s.len(),
{
    if s.len() == 0 {
        0
    } else {
        count_char(s.drop_last(), c) + (if s.last() == c {
            1int
        } else {
            0int
        })
    }
}

/// `c1 < c2 < c3 < c4` are the positions of the commas of `s`, and there are
/// no others.
pub open spec fn comma_split_points(s: Seq<char>, c1: int, c2: int, c3: int, c4: int) -> bool {
    &&& 0 <= c1 < c2 < c3 < c4 < s.len()
    &&& s[c1] == ','
    &&& s[c2] == ','
    &&& s[c3] == ','
    &&& s[c4] == ','
    &&& forall|j: int| 0 <= j < s.len() && s[j] == ',' ==> j == c1 || j == c2 || j == c3 || j == c4
}

/// The address that an input with exactly the commas `c1 < c2 < c3 < c4`
/// describes: the five fields between the commas, each trimmed.
pub open spec fn address_fields(s: Seq<char>, c1: int, c2: int, c3: int, c4: int) -> AddressV {
    AddressV {
        street_address: trim_spec(s.subrange(0, c1)),
        city: trim_spec(s.subrange(c1 + 1, c2)),
        state: trim_spec(s.subrange(c2 + 1, c3)),
        postcode: trim_spec(s.subrange(c3 + 1, c4)),
        country: trim_spec(s.subrange(c4 + 1, s.len() as int)),
    }
}

/// An input has at most one set of comma positions.
proof fn lemma_split_points_unique(
    s: Seq<char>,
    c1: int,
    c2: int,
    c3: int,
    c4: int,
    d1: int,
    d2: int,
    d3: int,
    d4: int,
)
    requires
        comma_split_points(s, c1, c2, c3, c4),
        comma_split_points(s, d1, d2, d3, d4),
    ensures
        c1 == d1 && c2 == d2 && c3 == d3 && c4 == d4,
{
    assert(d1 == c1 || d1 == c2 || d1 == c3 || d1 == c4);
    assert(d2 == c1 || d2 == c2 || d2 == c3 || d2 == c4);
    assert(d3 == c1 || d3 == c2 || d3 == c3 || d3 == c4);
    assert(d4 == c1 || d4 == c2 || d4 == c3 || d4 == c4);
    assert(c1 == d1 || c1 == d2 || c1 == d3 || c1 == d4);
    assert(c2 == d1 || c2 == d2 || c2 == d3 || c2 == d4);
    assert(c3 == d1 || c3 == d2 || c3 == d3 || c3 == d4);
    assert(c4 == d1 || c4 == d2 || c4 == d3 || c4 == d4);
}

fn is_space_char(c: char) -> (r: bool)
    ensures
        r == is_space(c),
{
    c == ' ' || c == '\t' || c == '\n' || c == '\r'
}

/// `s` with leading and trailing whitespace removed.
fn trim_str<'a>(s: &'a str) -> (r: &'a str)
    ensures
        r@ == trim_spec(s@),
{
    let n = s.unicode_len();
    let mut lo: usize = 0;
    proof {
        assert(s@.skip(0) =~= s@);
    }
    while lo < n && is_space_char(s.get_char(lo))
        invariant
            lo <= n,
            n == s@.len(),
            trim_start_spec(s@) == trim_start_spec(s@.skip(lo as int)),
        decreases n - lo,
    {
        proof {
            assert(s@.skip(lo as int)[0] == s@[lo as int]);
            assert(s@.skip(lo as int).skip(1) =~= s@.skip(lo as int + 1));
        }
        lo += 1;
    }
    proof {
        assert(trim_start_spec(s@.skip(lo as int)) == s@.skip(lo as int));
        assert(s@.skip(lo as int) =~= s@.subrange(lo as int, n as int));
    }
    let mut hi: usize = n;
    while hi > lo && is_space_char(s.get_char(hi - 1))
        invariant
            lo <= hi <= n,
            n == s@.len(),
            trim_end_spec(s@.skip(lo as int)) == trim_end_spec(s@.subrange(lo as int, hi as int)),
        decreases hi,
    {
        proof {
            assert(s@.subrange(lo as int, hi as int).last() == s@[hi as int - 1]);
            assert(s@.subrange(lo as int, hi as int).drop_last() =~= s@.subrange(
                lo as int,
                hi as int - 1,
            ));
        }
        hi -= 1;
    }
    proof {
        assert(trim_end_spec(s@.subrange(lo as int, hi as int)) == s@.subrange(
            lo as int,
            hi as int,
        ));
    }
    s.substring_char(lo, hi)
}

/// Reads an address given as five comma-separated fields — street, city,
/// state, postcode, country — and trims each field of surrounding
/// whitespace. Any other number of fields fails with `InvalidAddressFormat`.
pub fn parse_address(s: &str) -> (r: Result<Address, PhoneBookError>)
    ensures
        r is Err <==> count_char(s@, ',') != 4,
        r is Err ==> r == Err::<Address, PhoneBookError>(PhoneBookError::InvalidAddressFormat),
        r is Ok ==> exists|c1: int, c2: int, c3: int, c4: int|
            comma_split_points(s@, c1, c2, c3, c4),
        forall|c1: int, c2: int, c3: int, c4: int|
            r is Ok && comma_split_points(s@, c1, c2, c3, c4) ==> r->Ok_0@ == address_fields(
                s@,
                c1,
                c2,
                c3,
                c4,
            ),
{
    let n = s.unicode_len();
    let mut commas: Vec<usize> = Vec::new();
    let mut i: usize = 0;
    while i < n
        invariant
            i <= n,
            n == s@.len(),
            commas@.len() == count_char(s@.take(i as int), ','),
            forall|t: int|
                0 <= t < commas@.len() ==> 0 <= #[trigger] commas@[t] < i && s@[commas@[t] as int]
                    == ',',
            forall|t1: int, t2: int| 0 <= t1 < t2 < commas@.len() ==> commas@[t1] < commas@[t2],
            forall|j: int|
                0 <= j < i && s@[j] == ',' ==> exists|t: int|
                    0 <= t < commas@.len() && commas@[t] == j,
        decreases n - i,
    {
        let c = s.get_char(i);
        proof {
            assert(s@.take(i as int + 1).drop_last() =~= s@.take(i as int));
            assert(s@.take(i as int + 1).last() == s@[i as int]);
        }
        let ghost prev = commas@;
        if c == ',' {
            commas.push(i);
            proof {
                assert forall|j: int|
                    0 <= j < i + 1 && s@[j] == ',' implies exists|t: int|
                    0 <= t < commas@.len() && commas@[t] == j by {
                    if j == i {
                        assert(commas@[commas@.len() - 1] == j);
                    } else {
                        let t = choose|t: int| 0 <= t < prev.len() && prev[t] == j;
                        assert(commas@[t] == j);
                    }
                }
            }
        }
        i += 1;
    }
    proof {
        assert(s@.take(n as int) =~= s@);
    }
    if commas.len() != 4 {
        return Err(PhoneBookError::InvalidAddressFormat);
    }
    let c1 = commas[0];
    let c2 = commas[1];
    let c3 = commas[2];
    let c4 = commas[3];
    proof {
        assert(comma_split_points(s@, c1 as int, c2 as int, c3 as int, c4 as int)) by {
            assert forall|j: int|
                0 <= j < s@.len() && s@[j] == ',' implies j == c1 as int || j == c2 as int || j
                == c3 as int || j == c4 as int by {
                let t = choose|t: int| 0 <= t < commas@.len() && commas@[t] == j;
                assert(t == 0 || t == 1 || t == 2 || t == 3);
            }
        }
    }
    let street_address = trim_str(s.substring_char(0, c1)).to_owned();
    let city = trim_str(s.substring_char(c1 + 1, c2)).to_owned();
    let state = trim_str(s.substring_char(c2 + 1, c3)).to_owned();
    let postcode = trim_str(s.substring_char(c3 + 1, c4)).to_owned();
    let country = trim_str(s.substring_char(c4 + 1, n)).to_owned();
    let a = Address { street_address, city, state, postcode, country };
    proof {
        assert(a@ == address_fields(s@, c1 as int, c2 as int, c3 as int, c4 as int));
        assert forall|d1: int, d2: int, d3: int, d4: int|
            comma_split_points(s@, d1, d2, d3, d4) implies a@ == address_fields(
            s@,
            d1,
            d2,
            d3,
            d4,
        ) by {
            lemma_split_points_unique(
                s@,
                c1 as int,
                c2 as int,
                c3 as int,
                c4 as int,
                d1,
                d2,
                d3,
                d4,
            );
        }
    }
    Ok(a)
}

} // verus!
