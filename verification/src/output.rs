//! Texts for the status table.

use crate::appspec::AppInfo;
use crate::text::{copy_text, decimal, decimal_string, push_char, push_decimal};
use crate::types::{mode_name, AppStatus};
use vstd::prelude::*;
use vstd::string::*;

verus! {

/// A duration in its two largest units: days and hours, hours and minutes,
/// minutes and seconds, or seconds alone.
pub open spec fn duration_text(secs: u64) -> Seq<char> {
    if secs >= 86400 {
        decimal((secs / 86400) as nat) + "d "@ + decimal(((secs % 86400) / 3600) as nat) + "h"@
    } else if secs >= 3600 {
        decimal((secs / 3600) as nat) + "h "@ + decimal(((secs % 3600) / 60) as nat) + "m"@
    } else if secs >= 60 {
        decimal((secs / 60) as nat) + "m "@ + decimal((secs % 60) as nat) + "s"@
    } else {
        decimal(secs as nat) + "s"@
    }
}

/// A duration in its two largest units.
pub fn format_duration(secs: u64) -> (r: String)
    ensures
        r@ == duration_text(secs),
{
    let mut out = String::new();
    if secs >= 86400 {
        push_decimal(&mut out, secs / 86400);
        out.append("d ");
        push_decimal(&mut out, (secs % 86400) / 3600);
        out.append("h");
    } else if secs >= 3600 {
        push_decimal(&mut out, secs / 3600);
        out.append("h ");
        push_decimal(&mut out, (secs % 3600) / 60);
        out.append("m");
    } else if secs >= 60 {
        push_decimal(&mut out, secs / 60);
        out.append("m ");
        push_decimal(&mut out, secs % 60);
        out.append("s");
    } else {
        push_decimal(&mut out, secs);
        out.append("s");
    }
    assert(out@ =~= duration_text(secs));
    out
}

/// The word under which the status table shows a status.
pub open spec fn status_label(s: AppStatus) -> Seq<char> {
    match s {
        AppStatus::Running => "online"@,
        AppStatus::Stopped => "stopped"@,
        AppStatus::Errored => "errored"@,
        AppStatus::Starting => "starting"@,
        AppStatus::Stopping => "stopping"@,
        AppStatus::Building => "building"@,
    }
}

/// The word under which the status table shows `status`.
pub fn format_status(status: AppStatus) -> (r: String)
    ensures
        r@ == status_label(status),
{
    match status {
        AppStatus::Running => copy_text("online"),
        AppStatus::Stopped => copy_text("stopped"),
        AppStatus::Errored => copy_text("errored"),
        AppStatus::Starting => copy_text("starting"),
        AppStatus::Stopping => copy_text("stopping"),
        AppStatus::Building => copy_text("building"),
    }
}

/// `n / d` rounded to the nearest whole number, a half to the even one.
pub open spec fn rounded_div(n: nat, d: nat) -> nat {
    let q = n / d;
    let r = n % d;
    if 2 * r > d || (2 * r == d && q % 2 == 1) {
        q + 1
    } else {
        q
    }
}

/// The first count that 53 binary digits no longer hold exactly.
pub const WIDE: u64 = 0x20_0000_0000_0000;

/// The step between the counts that 53 binary digits can hold, near `n`: 1
/// below `WIDE`, and doubling with every doubling of `n` from there.
pub open spec fn grain(n: nat) -> nat
    decreases n,
{
    if n < WIDE {
        1
    } else {
        2 * grain(n / 2)
    }
}

/// `n` as 53 binary digits hold it: the nearest multiple of its grain, a
/// tie to the even one. Sizes are shown from this value, so that a size
/// prints as its double-precision quotient would.
pub open spec fn in_53_bits(n: nat) -> nat {
    rounded_div(n, grain(n)) * grain(n)
}

pub const KIB: u64 = 1024;

pub const MIB: u64 = 1_048_576;

pub const GIB: u64 = 1_073_741_824;

/// A number of tenths as a numeral with one decimal place.
pub open spec fn one_decimal(tenths: nat) -> Seq<char> {
    decimal(tenths / 10) + seq!['.'] + decimal(tenths % 10)
}

/// A size in bytes in its largest binary unit: gibibytes and mebibytes
/// with one decimal place, kibibytes as a whole number, each rounded to the
/// nearest, a half to the even one; under 1024, the bytes themselves.
pub open spec fn bytes_text(bytes: u64) -> Seq<char> {
    if bytes >= GIB {
        one_decimal(rounded_div(in_53_bits(bytes as nat) * 10, GIB as nat)) + "G"@
    } else if bytes >= MIB {
        one_decimal(rounded_div(bytes as nat * 10, MIB as nat)) + "M"@
    } else if bytes >= KIB {
        decimal(rounded_div(bytes as nat, KIB as nat)) + "K"@
    } else {
        decimal(bytes as nat) + "B"@
    }
}

/// `n / d` rounded to the nearest whole number, a half to the even one.
fn div_rounded(n: u128, d: u128) -> (r: u128)
    requires
        0 < d <= 0x1_0000_0000_0000_0000,
        n <= 0x10_0000_0000_0000_0000,
    ensures
        r == rounded_div(n as nat, d as nat),
        r <= n / d + 1,
{
    let q = n / d;
    let r = n % d;
    if 2 * r > d || (2 * r == d && q % 2 == 1) {
        q + 1
    } else {
        q
    }
}

/// The step between the counts that 53 binary digits can hold, near `n`.
fn grain_of(n: u64) -> (r: u64)
    ensures
        r == grain(n as nat),
        1 <= r <= 4096,
        n < WIDE ==> r == 1,
{
    let mut m: u64 = n;
    let mut unit: u64 = 1;
    while m >= WIDE
        invariant
            1 <= unit <= 4096,
            m * unit <= n,
            unit == 1 || unit * 0x10_0000_0000_0000 <= n,
            grain(n as nat) == unit * grain(m as nat),
            n < WIDE ==> unit == 1 && m == n,
        decreases m,
    {
        assert((unit * 2) * 0x10_0000_0000_0000 <= n) by (nonlinear_arith)
            requires
                m >= 0x20_0000_0000_0000,
                m * unit <= n,
        ;
        assert(unit * 2 <= 4096) by (nonlinear_arith)
            requires
                (unit * 2) * 0x10_0000_0000_0000 <= n,
                n <= 0xffff_ffff_ffff_ffff,
        ;
        assert((m / 2) * (unit * 2) <= m * unit) by (nonlinear_arith)
            requires
                unit >= 1,
        ;
        assert(unit * (2 * grain((m / 2) as nat)) == (unit * 2) * grain((m / 2) as nat))
            by (nonlinear_arith);
        m = m / 2;
        unit = unit * 2;
    }
    assert(unit * 1 == unit);
    unit
}

/// Appends the numeral with one decimal place of a number of tenths.
fn push_one_decimal(out: &mut String, tenths: u64)
    ensures
        final(out)@ == old(out)@ + one_decimal(tenths as nat),
{
    push_decimal(out, tenths / 10);
    push_char(out, '.');
    push_decimal(out, tenths % 10);
    assert(out@ =~= old(out)@ + one_decimal(tenths as nat));
}

/// A size in bytes in its largest binary unit.
pub fn format_bytes(bytes: u64) -> (r: String)
    ensures
        r@ == bytes_text(bytes),
{
    let mut out = String::new();
    if bytes >= GIB {
        let unit = grain_of(bytes);
        let steps = div_rounded(bytes as u128, unit as u128);
        assert((bytes / unit) * unit <= bytes) by (nonlinear_arith)
            requires
                unit >= 1,
        ;
        assert(steps * unit <= 0x1_0000_0000_0000_1000) by (nonlinear_arith)
            requires
                steps <= bytes / unit + 1,
                (bytes / unit) * unit <= bytes,
                1 <= unit <= 4096,
                bytes <= 0xffff_ffff_ffff_ffff,
        ;
        let held = steps * (unit as u128);
        let tenths = div_rounded(held * 10, GIB as u128);
        push_one_decimal(&mut out, tenths as u64);
        out.append("G");
    } else if bytes >= MIB {
        let tenths = div_rounded((bytes as u128) * 10, MIB as u128);
        push_one_decimal(&mut out, tenths as u64);
        out.append("M");
    } else if bytes >= KIB {
        let whole = div_rounded(bytes as u128, KIB as u128);
        push_decimal(&mut out, whole as u64);
        out.append("K");
    } else {
        push_decimal(&mut out, bytes);
        out.append("B");
    }
    assert(out@ =~= bytes_text(bytes));
    out
}

/// A share of a processor, given in hundredths of a percent, as a percentage
/// with one decimal place, rounded to the nearest, a half to the even one.
pub open spec fn cpu_text(centipercent: u32) -> Seq<char> {
    one_decimal(rounded_div(centipercent as nat, 10)) + "%"@
}

/// A share of a processor as a percentage with one decimal place.
pub fn format_cpu(centipercent: u32) -> (r: String)
    ensures
        r@ == cpu_text(centipercent),
{
    let mut out = String::new();
    let tenths = div_rounded(centipercent as u128, 10);
    push_one_decimal(&mut out, tenths as u64);
    out.append("%");
    assert(out@ =~= cpu_text(centipercent));
    out
}

/// One row of the status table.
#[derive(Debug)]
pub struct StatusRow {
    pub id: u32,
    pub name: String,
    pub mode: String,
    pub pid: String,
    pub restarts: String,
    pub status: String,
    pub cpu: String,
    pub mem: String,
    pub uptime: String,
}

/// How the status table shows a pid: the number, or a dash for none.
pub open spec fn pid_text(pid: Option<u32>) -> Seq<char> {
    match pid {
        Some(p) => decimal(p as nat),
        None => "-"@,
    }
}

impl StatusRow {
    /// The row for `info`.
    pub fn from_info(info: &AppInfo) -> (r: StatusRow)
        ensures
            r.id == info@.spec.id,
            r.name@ == info@.spec.name,
            r.mode@ == mode_name(info@.spec.mode),
            r.pid@ == pid_text(info@.state.pid),
            r.restarts@ == decimal(info@.state.restarts as nat),
            r.status@ == status_label(info@.state.status),
            r.cpu@ == cpu_text(info@.state.cpu_centipercent),
            r.mem@ == bytes_text(info@.state.memory_bytes),
            r.uptime@ == duration_text(info@.state.uptime_secs),
    {
        StatusRow {
            id: info.spec.id,
            name: info.spec.name.clone(),
            mode: info.spec.mode.to_string(),
            pid: match info.state.pid {
                Some(p) => decimal_string(p as u64),
                None => copy_text("-"),
            },
            restarts: decimal_string(info.state.restarts as u64),
            status: format_status(info.state.status),
            cpu: format_cpu(info.state.cpu_centipercent),
            mem: format_bytes(info.state.memory_bytes),
            uptime: format_duration(info.state.uptime_secs),
        }
    }
}

} // verus!
