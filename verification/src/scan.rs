//! The line scanner used to lift addressing out of an existing tunnel
//! config file: find a section header, then take the value column of the
//! first matching key line.
//!
//! A key line is read by whitespace tokens — `Key = value` has the value
//! as its third token — and scanning continues until a non-empty value is
//! found; a file without one yields nothing and the caller reports it.

use vstd::prelude::*;
use vstd::string::StrSliceExecFns;

use crate::textutil::spec_split;
use crate::textutil::str_eq;
use crate::textutil::str_split;
use crate::textutil::str_starts_with;
use crate::textutil::str_trim;
use crate::textutil::str_ws_tokens;
use crate::textutil::trim_spec;
use crate::textutil::ws_tokens;

verus! {

/// The value the scan yields: walking the lines in order, a line whose
/// trim equals the section header arms the scan; once armed, the first
/// line that starts with the field name and has a non-empty third
/// whitespace token yields that token.
pub open spec fn spec_scan(
    lines: Seq<Seq<char>>,
    section: Seq<char>,
    field: Seq<char>,
    inside: bool,
) -> Option<Seq<char>>
    decreases lines.len(),
{
    if lines.len() == 0 {
        None
    } else {
        let l = lines[0];
        if trim_spec(l) == section {
            spec_scan(lines.drop_first(), section, field, true)
        } else if inside && field.is_prefix_of(l) && ws_tokens(l).len() > 2 && ws_tokens(
            l,
        )[2].len() > 0 {
            Some(ws_tokens(l)[2])
        } else {
            spec_scan(lines.drop_first(), section, field, inside)
        }
    }
}

/// Scan the lines for the field's value under the section, as
/// `spec_scan` describes.
pub fn scan_lines(lines: &Vec<String>, section: &str, field: &str) -> (r: Option<String>)
    ensures
        (match r {
            Some(s) => Some(s@),
            None => None::<Seq<char>>,
        }) == spec_scan(lines.deep_view(), section@, field@, false),
{
    let n: usize = lines.len();
    let mut inside = false;
    let mut i: usize = 0;
    proof {
        assert(lines.deep_view().skip(0) =~= lines.deep_view());
    }
    while i < n
        invariant
            0 <= i <= n,
            n == lines.len(),
            spec_scan(lines.deep_view().skip(i as int), section@, field@, inside) == spec_scan(
                lines.deep_view(),
                section@,
                field@,
                false,
            ),
        decreases n - i,
    {
        let ghost pre = lines.deep_view().skip(i as int);
        proof {
            assert(pre[0] == lines@[i as int]@);
            assert(pre.drop_first() =~= lines.deep_view().skip(i + 1));
        }
        let line = &lines[i];
        let t = str_trim(line.as_str());
        if str_eq(t.as_str(), section) {
            inside = true;
        } else if inside && str_starts_with(line.as_str(), field) {
            let parts = str_ws_tokens(line.as_str());
            if parts.len() > 2 {
                let value = &parts[2];
                if value.as_str().unicode_len() > 0 {
                    proof {
                        assert(parts.deep_view()[2] == parts@[2]@);
                    }
                    return Some(value.clone());
                }
            }
        }
        i = i + 1;
    }
    None
}

/// The host part the first-boot scan yields: like `spec_scan`, but the
/// scan stops at the first armed line with more than two whitespace
/// tokens, and yields what stands before the first colon of the third
/// token — empty counts as found here, and the caller treats an empty
/// result as missing.
pub open spec fn spec_scan_host(
    lines: Seq<Seq<char>>,
    section: Seq<char>,
    field: Seq<char>,
    inside: bool,
) -> Option<Seq<char>>
    decreases lines.len(),
{
    if lines.len() == 0 {
        None
    } else {
        let l = lines[0];
        if trim_spec(l) == section {
            spec_scan_host(lines.drop_first(), section, field, true)
        } else if inside && field.is_prefix_of(l) && ws_tokens(l).len() > 2 {
            Some(spec_split(ws_tokens(l)[2], ':')[0])
        } else {
            spec_scan_host(lines.drop_first(), section, field, inside)
        }
    }
}

/// Scan the lines for the host part of the field's value under the
/// section, as `spec_scan_host` describes.
pub fn scan_lines_host(lines: &Vec<String>, section: &str, field: &str) -> (r: Option<String>)
    ensures
        (match r {
            Some(s) => Some(s@),
            None => None::<Seq<char>>,
        }) == spec_scan_host(lines.deep_view(), section@, field@, false),
{
    let n: usize = lines.len();
    let mut inside = false;
    let mut i: usize = 0;
    proof {
        assert(lines.deep_view().skip(0) =~= lines.deep_view());
    }
    while i < n
        invariant
            0 <= i <= n,
            n == lines.len(),
            spec_scan_host(lines.deep_view().skip(i as int), section@, field@, inside)
                == spec_scan_host(lines.deep_view(), section@, field@, false),
        decreases n - i,
    {
        let ghost pre = lines.deep_view().skip(i as int);
        proof {
            assert(pre[0] == lines@[i as int]@);
            assert(pre.drop_first() =~= lines.deep_view().skip(i + 1));
        }
        let line = &lines[i];
        let t = str_trim(line.as_str());
        if str_eq(t.as_str(), section) {
            inside = true;
        } else if inside && str_starts_with(line.as_str(), field) {
            let parts = str_ws_tokens(line.as_str());
            if parts.len() > 2 {
                let pieces = str_split(parts[2].as_str(), ':');
                proof {
                    assert(parts.deep_view()[2] == parts@[2]@);
                    crate::textutil::lemma_split_len(parts@[2]@, ':');
                    assert(pieces.deep_view()[0] == pieces@[0]@);
                }
                let host = &pieces[0];
                return Some(host.clone());
            }
        }
        i = i + 1;
    }
    None
}

} // verus!
