//! The client's side of the daemon protocol that is not I/O: the length
//! prefix of a frame, the bound on frame sizes, and whether a daemon's
//! self-description makes it one this client can use.

use vstd::prelude::*;
use crate::table::{decimal, numbered};

verus! {

/// The number a big-endian four-byte header encodes.
pub open spec fn be_value(h: Seq<u8>) -> int {
    h[0] * 16777216 + h[1] * 65536 + h[2] * 256 + h[3]
}

/// The payload length a frame header announces.
pub fn frame_length(header: [u8; 4]) -> (n: u32)
    ensures
        n == be_value(header@),
{
    (header[0] as u32) * 16777216 + (header[1] as u32) * 65536 + (header[2] as u32) * 256 + (header[3] as u32)
}

/// The message for a frame longer than the protocol allows.
pub open spec fn oversized_message(size: nat) -> Seq<char> {
    "IPC frame exceeds maximum size: "@ + decimal(size) + " bytes"@
}

/// Accepts a frame length up to `max` bytes.
pub fn check_frame_size(size: u32, max: u32) -> (r: Result<u32, String>)
    ensures
        match r {
            Ok(n) => size <= max && n == size,
            Err(e) => size > max && e@ == oversized_message(size as nat),
        },
{
    if size > max {
        Err(numbered("IPC frame exceeds maximum size: ", size as u64).concat(" bytes"))
    } else {
        Ok(size)
    }
}

/// The capability is the text `name`.
pub open spec fn is_named(cap: Option<String>, name: Seq<char>) -> bool {
    match cap {
        Some(c) => c@ == name,
        None => false,
    }
}

/// Some capability is `name`.
pub open spec fn has_capability(caps: Seq<Option<String>>, name: Seq<char>) -> bool {
    exists|i: int| 0 <= i < caps.len() && is_named(#[trigger] caps[i], name)
}

/// The version is the text `expected`.
pub open spec fn version_is(version: Option<String>, expected: Seq<char>) -> bool {
    is_named(version, expected)
}

/// A daemon can be used when it reports this client's version and can
/// install official kernels.
pub open spec fn daemon_usable(version: Option<String>, capabilities: Option<Seq<Option<String>>>, expected: Seq<char>) -> bool {
    &&& version_is(version, expected)
    &&& match capabilities {
        Some(caps) => has_capability(caps, "InstallOfficialKernel"@),
        None => false,
    }
}

/// Whether a daemon that reported `version` and `capabilities` (each
/// absent when the reply lacks it or it is not text or a list; a
/// capability that is not text is `None`) can be used by a client of
/// version `expected`.
pub fn daemon_is_compatible(version: Option<String>, capabilities: Option<Vec<Option<String>>>, expected: &str) -> (r: bool)
    ensures
        r == daemon_usable(
            version,
            match capabilities {
                Some(c) => Some(c@),
                None => None,
            },
            expected@,
        ),
{
    let version_ok = match &version {
        Some(v) => crate::text::str_eq(v.as_str(), expected),
        None => false,
    };
    if !version_ok {
        return false;
    }
    match &capabilities {
        None => false,
        Some(caps) => {
            let mut i: usize = 0;
            while i < caps.len()
                invariant
                    i <= caps.len(),
                    version_is(version, expected@),
                    capabilities == Some(*caps),
                    forall|j: int| 0 <= j < i ==> !is_named(#[trigger] caps@[j], "InstallOfficialKernel"@),
                decreases caps.len() - i,
            {
                match &caps[i] {
                    Some(c) => {
                        if crate::text::str_eq(c.as_str(), "InstallOfficialKernel") {
                            assert(has_capability(caps@, "InstallOfficialKernel"@)) by {
                                assert(is_named(caps@[i as int], "InstallOfficialKernel"@));
                            }
                            return true;
                        }
                    },
                    None => {},
                }
                i += 1;
            }
            false
        },
    }
}

} // verus!
