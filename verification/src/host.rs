//! Validation of the host given for the metrics endpoint.
//!
//! The endpoint binds to a numeric address, so the host must be an address
//! literal: either four dotted decimal octets, or hexadecimal groups
//! separated by colons with at most one `::` gap, optionally ending in an
//! embedded dotted quad standing in the place of the last two groups.  Both
//! grammars are stated as character-level scans over the UTF-8 bytes of the
//! host, and the executable classifier is proved to agree with them exactly.

use vstd::prelude::*;
use vstd::string::StringSliceAdditionalSpecFns;

verus! {

/// The kind of address literal a host string holds.
#[derive(Clone, Copy, Debug, PartialEq, Eq, Structural)]
pub enum HostKind {
    /// Four dotted decimal octets.
    V4,
    /// Hexadecimal groups separated by colons.
    V6,
}

/// True for the bytes of the ASCII decimal digits.
pub open spec fn is_dec_digit(b: u8) -> bool {
    48 <= b <= 57
}

/// True for the bytes of the ASCII hexadecimal digits.
pub open spec fn is_hex_digit(b: u8) -> bool {
    is_dec_digit(b) || (97 <= b <= 102) || (65 <= b <= 70)
}

/// The scan state over a dotted-quad literal: completed octets, digits and
/// value of the current octet, and whether the scan has already failed.
pub struct ScanV4 {
    pub parts: nat,
    pub digits: nat,
    pub value: nat,
    pub bad: bool,
}

/// The scan state at the start of the input.
pub open spec fn v4_init() -> ScanV4 {
    ScanV4 { parts: 0, digits: 0, value: 0, bad: false }
}

/// One byte of a dotted-quad scan.  An octet has one to three digits, no
/// leading zero, and a value of at most 255; a dot closes an octet, and at
/// most four octets may occur.
pub open spec fn v4_step(st: ScanV4, b: u8) -> ScanV4 {
    if st.bad {
        st
    } else if is_dec_digit(b) {
        if st.digits >= 3 || (st.digits > 0 && st.value == 0) || st.value * 10 + (b - 48) > 255 {
            ScanV4 { bad: true, ..st }
        } else {
            ScanV4 { digits: st.digits + 1, value: st.value * 10 + ((b - 48) as nat), ..st }
        }
    } else if b == 46 {
        if st.digits == 0 || st.parts >= 3 {
            ScanV4 { bad: true, ..st }
        } else {
            ScanV4 { parts: st.parts + 1, digits: 0, value: 0, ..st }
        }
    } else {
        ScanV4 { bad: true, ..st }
    }
}

/// The scan state after all bytes of `s`, in order.
pub open spec fn v4_scan(s: Seq<u8>) -> ScanV4
    decreases s.len(),
{
    if s.len() == 0 {
        v4_init()
    } else {
        v4_step(v4_scan(s.drop_last()), s.last())
    }
}

/// True when `s` is a dotted-quad address literal: four octets, each a
/// decimal number up to 255 without leading zeros, separated by dots.
pub open spec fn valid_ipv4(s: Seq<u8>) -> bool {
    let st = v4_scan(s);
    !st.bad && st.parts == 3 && st.digits > 0
}

/// The scan state over a colon-grouped literal.
///
/// Besides the completed groups, the digits of the current group, the length
/// of the colon run just seen, the `::` gap, whether the current colon run
/// opened the input, and failure, the scan keeps a decimal reading of the
/// current group (`dec_ok`, `dec_value`, capped at 256, and
/// `dec_lead_zero`), so that a dot may reinterpret that group as the first
/// octet of an embedded dotted quad; `in_quad` and `octets` then track the
/// quad's tail.
pub struct ScanV6 {
    pub groups: nat,
    pub digits: nat,
    pub colons: nat,
    pub seen_gap: bool,
    pub run_at_start: bool,
    pub dec_ok: bool,
    pub dec_value: nat,
    pub dec_lead_zero: bool,
    pub in_quad: bool,
    pub octets: nat,
    pub bad: bool,
}

/// The scan state at the start of the input.
pub open spec fn v6_init() -> ScanV6 {
    ScanV6 {
        groups: 0,
        digits: 0,
        colons: 0,
        seen_gap: false,
        run_at_start: false,
        dec_ok: false,
        dec_value: 0,
        dec_lead_zero: false,
        in_quad: false,
        octets: 0,
        bad: false,
    }
}

/// The decimal reading of the current group after one more digit: a fresh
/// group starts the reading over, a decimal digit extends it (values past
/// 255 saturate at 256, which no octet check accepts), and a hexadecimal
/// letter spoils it.
pub open spec fn v6_dec_value_next(st: ScanV6, b: u8) -> nat {
    if st.digits == 0 {
        if is_dec_digit(b) {
            (b - 48) as nat
        } else {
            0
        }
    } else if st.dec_ok && is_dec_digit(b) {
        if st.dec_value * 10 + (b - 48) > 255 {
            256
        } else {
            (st.dec_value * 10 + (b - 48)) as nat
        }
    } else {
        st.dec_value
    }
}

/// True when the current group reads as a valid first octet of an embedded
/// dotted quad: one to three decimal digits, no leading zero, at most 255.
pub open spec fn v6_first_octet_ok(st: ScanV6) -> bool {
    st.dec_ok && 1 <= st.digits <= 3 && st.dec_value <= 255 && (st.digits == 1
        || !st.dec_lead_zero)
}

/// True when an embedded dotted quad may start here: it stands for the last
/// two of the eight groups, so exactly six hexadecimal groups must be
/// written out before it, or at most five beside a `::` gap.
pub open spec fn v6_quad_position_ok(st: ScanV6) -> bool {
    if st.seen_gap {
        st.groups <= 5
    } else {
        st.groups == 6
    }
}

/// One byte of the embedded dotted quad's tail: octet rules as in the
/// dotted-quad scan, at most four octets, and nothing may follow the quad.
pub open spec fn v6_quad_step(st: ScanV6, b: u8) -> ScanV6 {
    if is_dec_digit(b) {
        if st.digits >= 3 || (st.digits > 0 && st.dec_value == 0) || st.dec_value * 10 + (b - 48)
            > 255 {
            ScanV6 { bad: true, ..st }
        } else {
            ScanV6 { digits: st.digits + 1, dec_value: (st.dec_value * 10 + (b - 48)) as nat, ..st }
        }
    } else if b == 46 {
        if st.digits == 0 || st.octets >= 3 {
            ScanV6 { bad: true, ..st }
        } else {
            ScanV6 { octets: st.octets + 1, digits: 0, dec_value: 0, ..st }
        }
    } else {
        ScanV6 { bad: true, ..st }
    }
}

/// One byte of a colon-grouped scan.  A group has one to four hexadecimal
/// digits; single colons separate groups; one `::` gap may stand for any
/// run of zero groups, also at the very start or end of the input; a dot
/// turns a decimal group into the first octet of an embedded dotted quad.
pub open spec fn v6_step(st: ScanV6, b: u8) -> ScanV6 {
    if st.bad {
        st
    } else if st.in_quad {
        v6_quad_step(st, b)
    } else if is_hex_digit(b) {
        if (st.colons == 1 && st.run_at_start) || st.digits >= 4 {
            ScanV6 { bad: true, ..st }
        } else {
            ScanV6 {
                digits: st.digits + 1,
                colons: 0,
                run_at_start: false,
                dec_ok: if st.digits == 0 {
                    is_dec_digit(b)
                } else {
                    st.dec_ok && is_dec_digit(b)
                },
                dec_value: v6_dec_value_next(st, b),
                dec_lead_zero: if st.digits == 0 {
                    b == 48
                } else {
                    st.dec_lead_zero
                },
                ..st
            }
        }
    } else if b == 58 {
        if st.colons >= 2 {
            ScanV6 { bad: true, ..st }
        } else if st.colons == 1 {
            if st.seen_gap {
                ScanV6 { bad: true, ..st }
            } else {
                ScanV6 { colons: 2, seen_gap: true, run_at_start: false, ..st }
            }
        } else if st.digits > 0 {
            if st.groups >= 8 {
                ScanV6 { bad: true, ..st }
            } else {
                ScanV6 { groups: st.groups + 1, digits: 0, colons: 1, run_at_start: false, ..st }
            }
        } else if st.groups == 0 && !st.seen_gap {
            ScanV6 { colons: 1, run_at_start: true, ..st }
        } else {
            ScanV6 { bad: true, ..st }
        }
    } else if b == 46 {
        if v6_first_octet_ok(st) && v6_quad_position_ok(st) {
            ScanV6 { in_quad: true, octets: 1, digits: 0, dec_value: 0, ..st }
        } else {
            ScanV6 { bad: true, ..st }
        }
    } else {
        ScanV6 { bad: true, ..st }
    }
}

/// The scan state after all bytes of `s`, in order.
pub open spec fn v6_scan(s: Seq<u8>) -> ScanV6
    decreases s.len(),
{
    if s.len() == 0 {
        v6_init()
    } else {
        v6_step(v6_scan(s.drop_last()), s.last())
    }
}

/// The number of groups the scan has seen written out, the open one
/// included.
pub open spec fn v6_groups_seen(st: ScanV6) -> nat {
    st.groups + if st.digits > 0 {
        1nat
    } else {
        0nat
    }
}

/// True when `s` is a colon-grouped address literal.  With an embedded
/// dotted quad the quad must be complete; the position of its start was
/// already checked when the first dot was read.  Otherwise the input may
/// not end in a single colon, and it spells exactly eight groups, either
/// written out in full or abbreviated by one `::` gap with at most seven
/// groups written.
pub open spec fn valid_ipv6(s: Seq<u8>) -> bool {
    let st = v6_scan(s);
    if st.in_quad {
        !st.bad && st.octets == 3 && st.digits > 0
    } else {
        !st.bad && st.colons != 1 && (if st.seen_gap {
            v6_groups_seen(st) <= 7
        } else {
            v6_groups_seen(st) == 8
        })
    }
}

/// The kind of address literal the bytes hold, if any.
pub open spec fn host_kind_of(s: Seq<u8>) -> Option<HostKind> {
    if valid_ipv4(s) {
        Some(HostKind::V4)
    } else if valid_ipv6(s) {
        Some(HostKind::V6)
    } else {
        None
    }
}

/// Runs the dotted-quad scan over the bytes.
fn scan_v4(b: &[u8]) -> (r: bool)
    ensures
        r == valid_ipv4(b@),
{
    let n = b.len();
    let mut i: usize = 0;
    let mut parts: u8 = 0;
    let mut digits: u8 = 0;
    let mut value: u16 = 0;
    let mut bad: bool = false;
    while i < n
        invariant
            i <= n,
            n == b@.len(),
            parts <= 3,
            digits <= 3,
            value <= 255,
            v4_scan(b@.take(i as int)) == (ScanV4 {
                parts: parts as nat,
                digits: digits as nat,
                value: value as nat,
                bad,
            }),
        decreases n - i,
    {
        let c = b[i];
        proof {
            assert(b@.take(i + 1 as int).drop_last() =~= b@.take(i as int));
            assert(b@.take(i + 1 as int).last() == b@[i as int]);
        }
        if !bad {
            if 48 <= c && c <= 57 {
                let d = (c - 48) as u16;
                if digits >= 3 || (digits > 0 && value == 0) || value * 10 + d > 255 {
                    bad = true;
                } else {
                    digits = digits + 1;
                    value = value * 10 + d;
                }
            } else if c == 46 {
                if digits == 0 || parts >= 3 {
                    bad = true;
                } else {
                    parts = parts + 1;
                    digits = 0;
                    value = 0;
                }
            } else {
                bad = true;
            }
        }
        i = i + 1;
    }
    proof {
        assert(b@.take(n as int) =~= b@);
    }
    !bad && parts == 3 && digits > 0
}

/// Runs the colon-grouped scan over the bytes.
fn scan_v6(b: &[u8]) -> (r: bool)
    ensures
        r == valid_ipv6(b@),
{
    let n = b.len();
    let mut i: usize = 0;
    let mut groups: u8 = 0;
    let mut digits: u8 = 0;
    let mut colons: u8 = 0;
    let mut seen_gap: bool = false;
    let mut run_at_start: bool = false;
    let mut dec_ok: bool = false;
    let mut dec_value: u16 = 0;
    let mut dec_lead_zero: bool = false;
    let mut in_quad: bool = false;
    let mut octets: u8 = 0;
    let mut bad: bool = false;
    while i < n
        invariant
            i <= n,
            n == b@.len(),
            groups <= 8,
            digits <= 4,
            colons <= 2,
            dec_value <= 256,
            octets <= 3,
            v6_scan(b@.take(i as int)) == (ScanV6 {
                groups: groups as nat,
                digits: digits as nat,
                colons: colons as nat,
                seen_gap,
                run_at_start,
                dec_ok,
                dec_value: dec_value as nat,
                dec_lead_zero,
                in_quad,
                octets: octets as nat,
                bad,
            }),
        decreases n - i,
    {
        let c = b[i];
        proof {
            assert(b@.take(i + 1 as int).drop_last() =~= b@.take(i as int));
            assert(b@.take(i + 1 as int).last() == b@[i as int]);
        }
        if !bad {
            if in_quad {
                if 48 <= c && c <= 57 {
                    let d = (c - 48) as u16;
                    if digits >= 3 || (digits > 0 && dec_value == 0) || dec_value * 10 + d > 255 {
                        bad = true;
                    } else {
                        digits = digits + 1;
                        dec_value = dec_value * 10 + d;
                    }
                } else if c == 46 {
                    if digits == 0 || octets >= 3 {
                        bad = true;
                    } else {
                        octets = octets + 1;
                        digits = 0;
                        dec_value = 0;
                    }
                } else {
                    bad = true;
                }
            } else if (48 <= c && c <= 57) || (97 <= c && c <= 102) || (65 <= c && c <= 70) {
                if (colons == 1 && run_at_start) || digits >= 4 {
                    bad = true;
                } else {
                    if digits == 0 {
                        dec_ok = 48 <= c && c <= 57;
                        dec_value = if dec_ok {
                            (c - 48) as u16
                        } else {
                            0
                        };
                        dec_lead_zero = c == 48;
                    } else if dec_ok && 48 <= c && c <= 57 {
                        let d = (c - 48) as u16;
                        dec_value = if dec_value * 10 + d > 255 {
                            256
                        } else {
                            dec_value * 10 + d
                        };
                    } else {
                        dec_ok = false;
                    }
                    digits = digits + 1;
                    colons = 0;
                    run_at_start = false;
                }
            } else if c == 58 {
                if colons >= 2 {
                    bad = true;
                } else if colons == 1 {
                    if seen_gap {
                        bad = true;
                    } else {
                        colons = 2;
                        seen_gap = true;
                        run_at_start = false;
                    }
                } else if digits > 0 {
                    if groups >= 8 {
                        bad = true;
                    } else {
                        groups = groups + 1;
                        digits = 0;
                        colons = 1;
                        run_at_start = false;
                    }
                } else if groups == 0 && !seen_gap {
                    colons = 1;
                    run_at_start = true;
                } else {
                    bad = true;
                }
            } else if c == 46 {
                if dec_ok && 1 <= digits && digits <= 3 && dec_value <= 255 && (digits == 1
                    || !dec_lead_zero) && (if seen_gap {
                    groups <= 5
                } else {
                    groups == 6
                }) {
                    in_quad = true;
                    octets = 1;
                    digits = 0;
                    dec_value = 0;
                } else {
                    bad = true;
                }
            } else {
                bad = true;
            }
        }
        i = i + 1;
    }
    proof {
        assert(b@.take(n as int) =~= b@);
    }
    if bad {
        false
    } else if in_quad {
        octets == 3 && digits > 0
    } else if colons == 1 {
        false
    } else {
        let seen: u8 = if digits > 0 {
            groups + 1
        } else {
            groups
        };
        if seen_gap {
            seen <= 7
        } else {
            seen == 8
        }
    }
}

/// Classifies the host as a dotted-quad or colon-grouped address literal,
/// or as neither.
pub fn classify_host(host: &str) -> (r: Option<HostKind>)
    ensures
        r == host_kind_of(host.spec_bytes()),
{
    let bytes = host.as_bytes();
    if scan_v4(bytes) {
        Some(HostKind::V4)
    } else if scan_v6(bytes) {
        Some(HostKind::V6)
    } else {
        None
    }
}

} // verus!
