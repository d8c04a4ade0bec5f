//! Numbers and addresses for display.
use crate::text::{cat5, cat4, decimal, decimal_of, strip_back, trim_end_matches};
use vstd::prelude::*;

verus! {

/// `a / b` rounded to the nearest whole number, to the even one of two that are equally near.
pub open spec fn rounded_quotient(a: nat, b: nat) -> nat
    recommends
        b > 0,
{
    let q = a / b;
    let r = a % b;
    if 2 * r < b || (2 * r == b && q % 2 == 0) {
        q
    } else {
        q + 1
    }
}

/// The distance between neighbouring numbers of 53 significant bits around `n`.
pub open spec fn grain(n: nat) -> nat
    decreases n,
{
    if n < 0x20_0000_0000_0000 {
        1
    } else {
        2 * grain(n / 2)
    }
}

/// `n` rounded to 53 significant bits.
pub open spec fn to_53_bits(n: nat) -> nat {
    rounded_quotient(n, grain(n)) * grain(n)
}

/// The unit in which a size is shown: the largest that it reaches, as a power of 1024.
pub open spec fn unit_power(size: nat) -> u8 {
    if size < 0x400 {
        0
    } else if size < 0x10_0000 {
        1
    } else if size < 0x4000_0000 {
        2
    } else if size < 0x100_0000_0000 {
        3
    } else {
        4
    }
}

pub open spec fn unit_size(power: u8) -> nat {
    match power {
        0 => 1,
        1 => 0x400,
        2 => 0x10_0000,
        3 => 0x4000_0000,
        _ => 0x100_0000_0000,
    }
}

pub open spec fn unit_name(power: u8) -> Seq<char> {
    match power {
        0 => "B"@,
        1 => "KB"@,
        2 => "MB"@,
        3 => "GB"@,
        _ => "TB"@,
    }
}

/// A size for display: in the largest unit that it reaches, with one decimal place.
pub open spec fn humanized(bytes: u64) -> Seq<char> {
    if bytes == 0 {
        "0 B"@
    } else {
        let size = to_53_bits(bytes as nat);
        let power = unit_power(size);
        let tenths = rounded_quotient(size * 10, unit_size(power));
        decimal(tenths / 10) + "."@ + decimal(tenths % 10) + " "@ + unit_name(power)
    }
}

proof fn lemma_grain(n: nat)
    ensures
        grain(n) >= 1,
        n < 0x1_0000_0000_0000_0000 ==> grain(n) <= 0x800,
    decreases n,
{
    if n >= 0x20_0000_0000_0000 {
        lemma_grain(n / 2);
        lemma_grain_bound(n);
    }
}

proof fn lemma_grain_bound(n: nat)
    ensures
        n < 0x20_0000_0000_0000 ==> grain(n) == 1,
        n < 0x1_0000_0000_0000_0000 ==> grain(n) <= 0x800,
{
    reveal_with_fuel(grain, 13);
}

fn grain_of(n: u64) -> (r: u64)
    ensures
        r == grain(n as nat),
        1 <= r <= 0x800,
{
    let mut g: u64 = 1;
    let mut m: u64 = n;
    proof {
        lemma_grain(n as nat);
    }
    while m >= 0x20_0000_0000_0000
        invariant
            1 <= g <= 0x800,
            grain(n as nat) == g * grain(m as nat),
            grain(n as nat) <= 0x800,
        decreases m,
    {
        proof {
            lemma_grain((m / 2) as nat);
            assert(grain(m as nat) == 2 * grain((m / 2) as nat));
            assert(g * (2 * grain((m / 2) as nat)) == (g * 2) * grain((m / 2) as nat))
                by (nonlinear_arith);
            assert((g * 2) * grain((m / 2) as nat) >= g * 2) by (nonlinear_arith)
                requires
                    grain((m / 2) as nat) >= 1,
            ;
        }
        g = g * 2;
        m = m / 2;
    }
    assert(g * grain(m as nat) == g) by (nonlinear_arith)
        requires
            grain(m as nat) == 1,
    ;
    g
}

fn round_div(a: u128, b: u128) -> (r: u128)
    requires
        0 < b <= 0x100_0000_0000,
        a < 0x10_0000_0000_0000_0000_0000,
    ensures
        r == rounded_quotient(a as nat, b as nat),
        r * b <= a + b,
        r <= a + 1,
{
    let q: u128 = a / b;
    let m: u128 = a % b;
    assert(q <= a && q * b <= a && (q + 1) * b <= a + b) by (nonlinear_arith)
        requires
            q == a / b,
            b > 0,
    ;
    if 2 * m < b || (2 * m == b && q % 2 == 0) {
        q
    } else {
        q + 1
    }
}

proof fn lemma_tenths(size: nat)
    requires
        size <= 0x2_0000_0000_0000_0000,
    ensures
        rounded_quotient(size * 10, unit_size(unit_power(size))) / 10 <= u64::MAX,
{
    if size < 0x400 {
        assert((size * 10) / 1 <= 10240);
    } else if size < 0x10_0000 {
        assert((size * 10) / 0x400 <= 10240);
    } else if size < 0x4000_0000 {
        assert((size * 10) / 0x10_0000 <= 10240);
    } else if size < 0x100_0000_0000 {
        assert((size * 10) / 0x4000_0000 <= 10240);
    } else {
        assert((size * 10) / 0x100_0000_0000 <= 0x1_0000_0000);
    }
}

fn in_unit(size: u128, power: u128, unit: &str) -> (r: String)
    requires
        0 < power <= 0x100_0000_0000,
        size <= 0x2_0000_0000_0000_0000,
    ensures
        ({
            let tenths = rounded_quotient((size * 10) as nat, power as nat);
            tenths / 10 <= u64::MAX ==> r@ == decimal(tenths / 10) + "."@ + decimal(tenths % 10)
                + " "@ + unit@
        }),
{
    let tenths: u128 = round_div(size * 10, power);
    let whole = decimal_of((tenths / 10) as u64);
    let part = decimal_of((tenths % 10) as u64);
    cat5(whole.as_str(), ".", part.as_str(), " ", unit)
}

/// A size for display.
pub fn humanize_bytes(bytes: u64) -> (r: String)
    ensures
        r@ == humanized(bytes),
{
    if bytes == 0 {
        return "0 B".to_owned();
    }
    let g: u64 = grain_of(bytes);
    let whole_grains: u128 = round_div(bytes as u128, g as u128);
    let size: u128 = whole_grains * (g as u128);
    proof {
        lemma_tenths(size as nat);
    }
    if size < 0x400 {
        in_unit(size, 1, "B")
    } else if size < 0x10_0000 {
        in_unit(size, 0x400, "KB")
    } else if size < 0x4000_0000 {
        in_unit(size, 0x10_0000, "MB")
    } else if size < 0x100_0000_0000 {
        in_unit(size, 0x4000_0000, "GB")
    } else {
        in_unit(size, 0x100_0000_0000, "TB")
    }
}

/// The page of a tunnel in the web application.
pub open spec fn portal_url(web_url: Seq<char>, project_id: Seq<char>, tunnel_id: Seq<char>) -> Seq<
    char,
> {
    strip_back(web_url, '/') + "/project/"@ + project_id + "/edge/"@ + tunnel_id + "/overview"@
}

pub fn tunnel_edge_portal_url(web_url: &str, project_id: &str, tunnel_id: &str) -> (r: String)
    ensures
        r@ == portal_url(web_url@, project_id@, tunnel_id@),
{
    let base = trim_end_matches(web_url, '/');
    let project = cat4(base.as_str(), "/project/", project_id, "/edge/");
    crate::text::cat3(project.as_str(), tunnel_id, "/overview")
}

/// A size below two to the power of 53 is shown in the largest unit of 1024 that it reaches, to the
/// nearest tenth.
pub proof fn law_humanized(bytes: u64)
    requires
        0 < bytes < 0x20_0000_0000_0000,
    ensures
        exists|tenths: nat, unit: nat, name: Seq<char>|
            #![trigger shows(bytes, tenths, unit, name)]
            {
                &&& shows(bytes, tenths, unit, name)
                &&& -(unit as int) <= 2 * (tenths * unit - bytes * 10) <= unit
            },
{
    let size = bytes as nat;
    lemma_grain_bound(size);
    assert(rounded_quotient(size, 1) == size);
    assert(to_53_bits(size) == size);
    let power = unit_power(size);
    let unit = unit_size(power);
    let tenths = rounded_quotient(size * 10, unit);
    lemma_near(size * 10, unit);
    assert(shows(bytes, tenths, unit, unit_name(power)));
}

/// The size is shown as that many tenths of the unit, and the unit is the one for the size.
pub open spec fn shows(bytes: u64, tenths: nat, unit: nat, name: Seq<char>) -> bool {
    &&& humanized(bytes) == decimal(tenths / 10) + "."@ + decimal(tenths % 10) + " "@ + name
    &&& {
        ||| bytes < 1024 && unit == 1 && name == "B"@
        ||| 1024 <= bytes < 1024 * 1024 && unit == 1024 && name == "KB"@
        ||| 1024 * 1024 <= bytes < 1024 * 1024 * 1024 && unit == 1024 * 1024 && name == "MB"@
        ||| 1024 * 1024 * 1024 <= bytes < 1024 * 1024 * 1024 * 1024 && unit == 1024 * 1024 * 1024
            && name == "GB"@
        ||| 1024 * 1024 * 1024 * 1024 <= bytes && unit == 1024 * 1024 * 1024 * 1024 && name == "TB"@
    }
}

proof fn lemma_near(a: nat, b: nat)
    requires
        b > 0,
    ensures
        -(b as int) <= 2 * (rounded_quotient(a, b) * b - a) <= b,
{
    let q = a / b;
    let r = a % b;
    assert(a == q * b + r && r < b) by (nonlinear_arith)
        requires
            b > 0,
            q == a / b,
            r == a % b,
    ;
    assert((q + 1) * b == q * b + b) by (nonlinear_arith);
}

/// Nothing is shown as nothing.
pub proof fn law_nothing_shown()
    ensures
        humanized(0) == "0 B"@,
{
}

/// The page of a tunnel is below the web application, whether or not that is written with slashes at
/// its end.
pub proof fn law_portal_url(
    web_url: Seq<char>,
    slashes: nat,
    project_id: Seq<char>,
    tunnel_id: Seq<char>,
)
    requires
        web_url.len() > 0,
        web_url[0] != '/',
        web_url.last() != '/',
    ensures
        portal_url(web_url + Seq::new(slashes, |i: int| '/'), project_id, tunnel_id) == web_url
            + "/project/"@ + project_id + "/edge/"@ + tunnel_id + "/overview"@,
{
    crate::text::law_strip(web_url, '/', slashes);
}

/// What lies halfway between two whole numbers is rounded to the even one.
pub proof fn law_ties(a: nat, b: nat)
    requires
        b > 0,
        2 * (a % b) == b,
    ensures
        rounded_quotient(a, b) % 2 == 0,
{
}

} // verus!
