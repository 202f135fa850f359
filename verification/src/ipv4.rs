//! Recognizer for dotted-quad IPv4 address text: four decimal
//! components between 0 and 255, without leading zeroes, joined by
//! single dots.
use vstd::prelude::*;
use vstd::string::*;

verus! {

/// Whether `c` is a decimal digit.
pub open spec fn is_digit(c: char) -> bool {
    48 <= (c as u32) <= 57
}

/// Numeric value of a digit sequence read in base ten.
pub open spec fn dec_value(s: Seq<char>) -> int
    decreases s.len(),
{
    if s.len() == 0 {
        0
    } else {
        dec_value(s.drop_last()) * 10 + (s.last() as u32 - 48)
    }
}

/// Whether `s` is the canonical decimal form of one dotted-quad
/// component: one to three digits, no leading zero, value at most 255.
pub open spec fn is_octet(s: Seq<char>) -> bool {
    &&& 1 <= s.len() <= 3
    &&& (forall|i: int| 0 <= i < s.len() ==> is_digit(#[trigger] s[i]))
    &&& (s.len() > 1 ==> s[0] != '0')
    &&& dec_value(s) <= 255
}

/// Whether the dots at positions `p`, `q` and `r` split `s` into four
/// octets.
pub open spec fn is_quad_split(s: Seq<char>, p: int, q: int, r: int) -> bool {
    &&& 0 <= p < q < r < s.len()
    &&& s[p] == '.'
    &&& s[q] == '.'
    &&& s[r] == '.'
    &&& is_octet(s.subrange(0, p))
    &&& is_octet(s.subrange(p + 1, q))
    &&& is_octet(s.subrange(q + 1, r))
    &&& is_octet(s.subrange(r + 1, s.len() as int))
}

/// Whether `s` is a dotted-quad IPv4 address.
pub open spec fn is_dotted_quad(s: Seq<char>) -> bool {
    exists|p: int, q: int, r: int| is_quad_split(s, p, q, r)
}

/// In a quad split every dot of `s` stands at one of the three split
/// positions: the four components hold digits only.
proof fn lemma_split_positions_are_dots(s: Seq<char>, p: int, q: int, r: int, d: int)
    requires
        is_quad_split(s, p, q, r),
        0 <= d < s.len(),
        s[d] == '.',
    ensures
        d == p || d == q || d == r,
{
    if d != p && d != q && d != r {
        if d < p {
            assert(s.subrange(0, p)[d] == s[d]);
            assert(is_digit(s.subrange(0, p)[d]));
        } else if d < q {
            assert(s.subrange(p + 1, q)[d - (p + 1)] == s[d]);
            assert(is_digit(s.subrange(p + 1, q)[d - (p + 1)]));
        } else if d < r {
            assert(s.subrange(q + 1, r)[d - (q + 1)] == s[d]);
            assert(is_digit(s.subrange(q + 1, r)[d - (q + 1)]));
        } else {
            assert(s.subrange(r + 1, s.len() as int)[d - (r + 1)] == s[d]);
            assert(is_digit(s.subrange(r + 1, s.len() as int)[d - (r + 1)]));
        }
        assert(is_digit('.'));
        assert(false);
    }
}

/// Decides whether the component of `s` between `from` (inclusive) and
/// `to` (exclusive) is one octet.
fn check_octet(s: &str, from: usize, to: usize) -> (b: bool)
    requires
        from <= to <= s@.len(),
    ensures
        b == is_octet(s@.subrange(from as int, to as int)),
{
    let ghost sub = s@.subrange(from as int, to as int);
    let len = to - from;
    if len < 1 || len > 3 {
        return false;
    }
    if len > 1 {
        let first = s.get_char(from);
        proof {
            assert(sub[0] == s@[from as int]);
        }
        if first == '0' {
            return false;
        }
    }
    let mut value: u32 = 0;
    let mut i = from;
    while i < to
        invariant
            from <= i <= to <= s@.len(),
            1 <= to - from <= 3,
            sub == s@.subrange(from as int, to as int),
            forall|k: int| from <= k < i ==> is_digit(#[trigger] s@[k]),
            value == dec_value(s@.subrange(from as int, i as int)),
            i - from == 0 ==> value == 0,
            i - from == 1 ==> value <= 9,
            i - from == 2 ==> value <= 99,
            i - from == 3 ==> value <= 999,
        decreases to - i,
    {
        let c = s.get_char(i);
        let code = c as u32;
        if code < 48 || code > 57 {
            proof {
                assert(sub[i - from] == s@[i as int]);
                assert(!is_digit(sub[i - from]));
            }
            return false;
        }
        proof {
            assert(s@.subrange(from as int, i + 1).drop_last() =~= s@.subrange(
                from as int,
                i as int,
            ));
            assert(s@.subrange(from as int, i + 1).last() == s@[i as int]);
        }
        value = value * 10 + (code - 48);
        i = i + 1;
    }
    proof {
        assert(s@.subrange(from as int, i as int) =~= sub);
    }
    if value > 255 {
        false
    } else {
        proof {
            assert forall|k: int| 0 <= k < sub.len() implies is_digit(#[trigger] sub[k]) by {
                assert(sub[k] == s@[from + k]);
            }
        }
        true
    }
}

/// Decides whether `addr` is a dotted-quad IPv4 address: four decimal
/// components between 0 and 255, without leading zeroes, joined by
/// single dots.
pub fn is_ipv4_address(addr: &str) -> (b: bool)
    ensures
        b == is_dotted_quad(addr@),
{
    let n = addr.unicode_len();
    let mut dots: Vec<usize> = Vec::new();
    let mut i: usize = 0;
    while i < n
        invariant
            n == addr@.len(),
            i <= n,
            forall|k: int| 0 <= k < dots@.len() ==> (#[trigger] dots@[k]) < i,
            forall|k: int| 0 <= k < dots@.len() ==> addr@[(#[trigger] dots@[k]) as int] == '.',
            forall|k1: int, k2: int|
                0 <= k1 < k2 < dots@.len() ==> #[trigger] dots@[k1] < #[trigger] dots@[k2],
            forall|j: int|
                0 <= j < i && (#[trigger] addr@[j]) == '.' ==> exists|k: int|
                    0 <= k < dots@.len() && (#[trigger] dots@[k]) as int == j,
        decreases n - i,
    {
        let c = addr.get_char(i);
        if c == '.' {
            let ghost prev = dots@;
            dots.push(i);
            proof {
                assert(forall|k: int| 0 <= k < prev.len() ==> dots@[k] == prev[k]);
                assert((#[trigger] dots@[prev.len() as int]) as int == i);
            }
        }
        i = i + 1;
    }
    if dots.len() == 3 {
        let d0 = dots[0];
        let d1 = dots[1];
        let d2 = dots[2];
        proof {
            assert(dots@[0] < dots@[1] && dots@[1] < dots@[2]);
            assert(dots@[2] < n);
        }
        let c1 = check_octet(addr, 0, d0);
        let c2 = check_octet(addr, d0 + 1, d1);
        let c3 = check_octet(addr, d1 + 1, d2);
        let c4 = check_octet(addr, d2 + 1, n);
        if c1 && c2 && c3 && c4 {
            proof {
                assert(is_quad_split(addr@, d0 as int, d1 as int, d2 as int));
            }
            true
        } else {
            proof {
                assert forall|p: int, q: int, r: int| !is_quad_split(addr@, p, q, r) by {
                    if is_quad_split(addr@, p, q, r) {
                        let kp = choose|k: int|
                            0 <= k < dots@.len() && (#[trigger] dots@[k]) as int == p;
                        let kq = choose|k: int|
                            0 <= k < dots@.len() && (#[trigger] dots@[k]) as int == q;
                        let kr = choose|k: int|
                            0 <= k < dots@.len() && (#[trigger] dots@[k]) as int == r;
                        assert(0 <= kp < 3 && dots@[kp] as int == p);
                        assert(0 <= kq < 3 && dots@[kq] as int == q);
                        assert(0 <= kr < 3 && dots@[kr] as int == r);
                        assert(p == d0 && q == d1 && r == d2);
                        assert(is_octet(addr@.subrange(0, d0 as int)));
                        assert(is_octet(addr@.subrange(d0 as int + 1, d1 as int)));
                        assert(is_octet(addr@.subrange(d1 as int + 1, d2 as int)));
                        assert(is_octet(addr@.subrange(d2 as int + 1, addr@.len() as int)));
                        assert(false);
                    }
                }
            }
            false
        }
    } else {
        proof {
            assert forall|p: int, q: int, r: int| !is_quad_split(addr@, p, q, r) by {
                if is_quad_split(addr@, p, q, r) {
                    let kp = choose|k: int|
                        0 <= k < dots@.len() && (#[trigger] dots@[k]) as int == p;
                    let kq = choose|k: int|
                        0 <= k < dots@.len() && (#[trigger] dots@[k]) as int == q;
                    let kr = choose|k: int|
                        0 <= k < dots@.len() && (#[trigger] dots@[k]) as int == r;
                    assert(0 <= kp < dots@.len() && dots@[kp] as int == p);
                    assert(0 <= kq < dots@.len() && dots@[kq] as int == q);
                    assert(0 <= kr < dots@.len() && dots@[kr] as int == r);
                    if dots@.len() < 3 {
                        assert(kp != kq && kq != kr && kp != kr);
                        assert(false);
                    } else {
                        let e0 = dots@[0] as int;
                        let e1 = dots@[1] as int;
                        let e2 = dots@[2] as int;
                        let e3 = dots@[3] as int;
                        assert(dots@[0] < dots@[1] && dots@[1] < dots@[2] && dots@[2]
                            < dots@[3]);
                        lemma_split_positions_are_dots(addr@, p, q, r, e0);
                        lemma_split_positions_are_dots(addr@, p, q, r, e1);
                        lemma_split_positions_are_dots(addr@, p, q, r, e2);
                        lemma_split_positions_are_dots(addr@, p, q, r, e3);
                        assert(false);
                    }
                }
            }
        }
        false
    }
}

} // verus!
