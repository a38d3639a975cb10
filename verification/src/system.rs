//! General host facts: kernel, operating system, uptime.
//!
//! As in the hardware module, the functions take what the caller has read
//! and compute what there is to report.

use crate::hardware::opt_view;
use crate::text::{
    contains_seq, decimal, from_chars, lines, occurs, piece_after, push_all, rows, second_piece,
    split_lines, starts_with, strip_char, to_chars, to_decimal, trim_char, trim_text, trimmed,
};
use vstd::prelude::*;

verus! {

/// Whether the host is a RISC-V machine: the architecture name holds
/// `riscv`, or `cpuinfo` holds `riscv` or `RISC-V`.
pub open spec fn riscv_host(arch: Option<Seq<char>>, cpuinfo: Option<Seq<char>>) -> bool {
    ||| arch matches Some(name) && occurs(name, "riscv"@)
    ||| cpuinfo matches Some(text) && (occurs(text, "riscv"@) || occurs(text, "RISC-V"@))
}

/// The kernel release: the trimmed output of `uname -r` where that leaves
/// something, else `Unknown`.
pub open spec fn kernel_release(uname: Option<Seq<char>>) -> Seq<char> {
    match uname {
        Some(text) => if trimmed(text).len() > 0 {
            trimmed(text)
        } else {
            "Unknown"@
        },
        None => "Unknown"@,
    }
}

/// The pretty name that a line of `os-release` gives: what stands between
/// the first and the second `=` of a `PRETTY_NAME=` line, without the
/// quotes around it.
pub open spec fn pretty_name_of(line: Seq<char>) -> Option<Seq<char>> {
    if "PRETTY_NAME="@.is_prefix_of(line) {
        match second_piece(line, '=') {
            Some(value) => Some(trim_char(value, '"')),
            None => None,
        }
    } else {
        None
    }
}

/// The pretty name of the first line at or after `from` that gives one.
pub open spec fn first_pretty_name(text_lines: Seq<Seq<char>>, from: int) -> Option<Seq<char>>
    decreases text_lines.len() - from,
{
    if from < 0 || from >= text_lines.len() {
        None
    } else {
        match pretty_name_of(text_lines[from]) {
            Some(name) => Some(name),
            None => first_pretty_name(text_lines, from + 1),
        }
    }
}

/// The name of the operating system: the pretty name of `os-release`, or
/// `Linux` where there is no text or no such line.
pub open spec fn os_name(os_release: Option<Seq<char>>) -> Seq<char> {
    match os_release {
        Some(text) => match first_pretty_name(lines(text), 0) {
            Some(name) => name,
            None => "Linux"@,
        },
        None => "Linux"@,
    }
}

/// An uptime in words: whole hours and the minutes beyond them, as
/// `5h 7m`; the minutes alone, as `7m`, below one hour.
pub open spec fn uptime_phrase(seconds: nat) -> Seq<char> {
    let hours = seconds / 3600;
    let minutes = (seconds % 3600) / 60;
    if hours > 0 {
        decimal(hours) + "h "@ + decimal(minutes) + "m"@
    } else {
        decimal(minutes) + "m"@
    }
}

/// Whether `text` holds `pattern`.
fn holds(text: &str, pattern: &str) -> (found: bool)
    ensures
        found == occurs(text@, pattern@),
{
    let chars = to_chars(text);
    let wanted = to_chars(pattern);
    contains_seq(chars.as_slice(), wanted.as_slice())
}

/// Whether the host is a RISC-V machine, from the output of `uname -m` and
/// the content of `cpuinfo`, each where it could be had.
pub fn is_riscv(arch: Option<&str>, cpuinfo: Option<&str>) -> (yes: bool)
    ensures
        yes == riscv_host(opt_view(arch), opt_view(cpuinfo)),
{
    match arch {
        Some(name) => {
            if holds(name, "riscv") {
                return true;
            }
        },
        None => {},
    }
    match cpuinfo {
        Some(text) => holds(text, "riscv") || holds(text, "RISC-V"),
        None => false,
    }
}

/// The kernel release from the output of `uname -r`, or `Unknown`.
pub fn get_kernel_info(uname: Option<&str>) -> (kernel: String)
    ensures
        kernel@ == kernel_release(opt_view(uname)),
{
    match uname {
        Some(output) => {
            let chars = to_chars(output);
            let release = trim_text(chars.as_slice());
            if release.len() > 0 {
                from_chars(release.as_slice())
            } else {
                "Unknown".to_owned()
            }
        },
        None => "Unknown".to_owned(),
    }
}

/// The name of the operating system from the content of `os-release`, or
/// `Linux`.
pub fn get_os_info(os_release: Option<&str>) -> (name: String)
    ensures
        name@ == os_name(opt_view(os_release)),
{
    match os_release {
        Some(content) => {
            let chars = to_chars(content);
            let text_lines = split_lines(chars.as_slice());
            let key = to_chars("PRETTY_NAME=");
            let mut i: usize = 0;
            while i < text_lines.len()
                invariant
                    i <= text_lines.len(),
                    key@ == "PRETTY_NAME="@,
                    os_release == Some(content),
                    rows(text_lines@) == lines(content@),
                    first_pretty_name(rows(text_lines@), 0) == first_pretty_name(
                        rows(text_lines@),
                        i as int,
                    ),
                decreases text_lines.len() - i,
            {
                let line = text_lines[i].as_slice();
                if starts_with(line, key.as_slice()) {
                    match piece_after(line, '=') {
                        Some(value) => {
                            let name = strip_char(value.as_slice(), '"');
                            return from_chars(name.as_slice());
                        },
                        None => {},
                    }
                }
                i += 1;
            }
            "Linux".to_owned()
        },
        None => "Linux".to_owned(),
    }
}

/// The uptime in words, such as `5h 7m`, from the uptime in seconds.
pub fn get_uptime(uptime_secs: u64) -> (phrase: String)
    ensures
        phrase@ == uptime_phrase(uptime_secs as nat),
{
    let hours = uptime_secs / 3600;
    let minutes = (uptime_secs % 3600) / 60;
    let mut out: Vec<char> = Vec::new();
    if hours > 0 {
        push_all(&mut out, to_decimal(hours).as_slice());
        push_all(&mut out, to_chars("h ").as_slice());
    }
    push_all(&mut out, to_decimal(minutes).as_slice());
    push_all(&mut out, to_chars("m").as_slice());
    proof {
        assert(out@ =~= uptime_phrase(uptime_secs as nat));
    }
    from_chars(out.as_slice())
}

} // verus!
