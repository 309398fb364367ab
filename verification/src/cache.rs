//! The content-addressed package cache's decision logic: when a cached file
//! may be reused, when a download's bytes are acceptable, and the summary
//! the pipeline reports about a download run.

use vstd::prelude::*;

verus! {

use crate::errors::{DistError, ErrorKind};
use crate::text::{decimal_string, spec_decimal};

/// The SHA-256 digest of a byte string. What an outside digest call returns
/// depends on the bytes alone.
pub uninterp spec fn sha256_of(b: Seq<u8>) -> Seq<u8>;

/// Relies on `rattler_digest::compute_bytes_digest::<Sha256>`: the digest is
/// a function of the input bytes alone, 32 bytes long.
#[verifier::external_body]
pub fn compute_sha256(bytes: &Vec<u8>) -> (r: Vec<u8>)
    ensures
        r@ == sha256_of(bytes@),
        r@.len() == 32,
{
    rattler_digest::compute_bytes_digest::<rattler_digest::Sha256>(bytes.as_slice())
        .as_slice()
        .to_vec()
}

/// A cached file may be reused: the record carries a digest, a cached file
/// exists, and its digest matches.
pub open spec fn spec_cache_hit(cached: Option<Seq<u8>>, expected: Option<Seq<u8>>) -> bool {
    match (cached, expected) {
        (Some(c), Some(e)) => sha256_of(c) == e,
        _ => false,
    }
}

/// Decide whether cached bytes may serve the fetch: without an expected
/// digest nothing is reused, without a cached file nothing can be, and a
/// digest mismatch invalidates the cached file.
pub fn cache_hit(cached: Option<&Vec<u8>>, expected: Option<&Vec<u8>>) -> (r: bool)
    ensures
        r == spec_cache_hit(
            match cached {
                Some(c) => Some(c@),
                None => None,
            },
            match expected {
                Some(e) => Some(e@),
                None => None,
            },
        ),
{
    match (cached, expected) {
        (Some(c), Some(e)) => {
            let digest = compute_sha256(c);
            eq_bytes(&digest, e)
        },
        _ => false,
    }
}

/// Downloaded bytes are acceptable: either the record carries no digest, or
/// the digest of the bytes matches the expected one.
pub open spec fn spec_download_ok(bytes: Seq<u8>, expected: Option<Seq<u8>>) -> bool {
    match expected {
        Some(e) => sha256_of(bytes) == e,
        None => true,
    }
}

/// Validate a download against the record's digest; a mismatch is a fatal
/// fetch failure.
pub fn check_download(bytes: &Vec<u8>, expected: Option<&Vec<u8>>) -> (r: Result<(), DistError>)
    ensures
        r is Ok <==> spec_download_ok(
            bytes@,
            match expected {
                Some(e) => Some(e@),
                None => None,
            },
        ),
        r matches Err(e) ==> e.kind == ErrorKind::FetchFailed,
{
    match expected {
        Some(e) => {
            let digest = compute_sha256(bytes);
            if eq_bytes(&digest, e) {
                Ok(())
            } else {
                Err(DistError::new(
                    ErrorKind::FetchFailed,
                    String::from_str("downloaded package failed checksum validation"),
                ))
            }
        },
        None => Ok(()),
    }
}

/// Cache idempotence: bytes that passed download validation against a digest
/// are exactly what a later fetch of the same record finds in the cache, and
/// that later fetch is a validated hit — no second download happens.
pub proof fn lemma_cache_idempotent(bytes: Seq<u8>, digest: Seq<u8>)
    requires
        spec_download_ok(bytes, Some(digest)),
    ensures
        spec_cache_hit(Some(bytes), Some(digest)),
{
}

/// Compare two byte vectors.
pub fn eq_bytes(a: &Vec<u8>, b: &Vec<u8>) -> (r: bool)
    ensures
        r == (a@ == b@),
{
    if a.len() != b.len() {
        return false;
    }
    let mut i: usize = 0;
    while i < a.len()
        invariant
            i <= a@.len(),
            a@.len() == b@.len(),
            forall|j: int| 0 <= j < i ==> a@[j] == b@[j],
        decreases a@.len() - i,
    {
        if a[i] != b[i] {
            return false;
        }
        i = i + 1;
    }
    proof {
        assert(a@ =~= b@);
    }
    true
}

/// What a download run did: how many packages the run covered, and how many
/// had to be fetched rather than served from the cache.
pub struct DownloadSummary {
    pub total_packages: usize,
    pub fetched_packages: usize,
}

/// The message reported for a download run.
pub open spec fn spec_download_message(total: int, fetched: int) -> Seq<char> {
    if fetched == 0 {
        "No packages required downloading."@
    } else if total - fetched > 0 {
        "Downloaded "@ + spec_decimal(fetched) + " packages (reused "@ + spec_decimal(
            total - fetched,
        ) + ")."@
    } else {
        "Downloaded "@ + spec_decimal(fetched) + " packages."@
    }
}

/// Append the human-readable summary of a download run to `messages`.
pub fn push_download_summary(messages: &mut Vec<String>, summary: &DownloadSummary)
    requires
        summary.fetched_packages <= summary.total_packages,
    ensures
        final(messages)@.len() == old(messages)@.len() + 1,
        forall|i: int|
            0 <= i < old(messages)@.len() ==> final(messages)@[i] == #[trigger] old(messages)@[i],
        final(messages)@.last()@ == spec_download_message(
            summary.total_packages as int,
            summary.fetched_packages as int,
        ),
{
    if summary.fetched_packages == 0 {
        messages.push(String::from_str("No packages required downloading."));
        return ;
    }
    let reused = summary.total_packages - summary.fetched_packages;
    let fetched_text = decimal_string(summary.fetched_packages as u64);
    if reused > 0 {
        let reused_text = decimal_string(reused as u64);
        let mut msg = String::from_str("Downloaded ");
        msg.append(fetched_text.as_str());
        msg.append(" packages (reused ");
        msg.append(reused_text.as_str());
        msg.append(").");
        proof {
            assert(msg@ =~= spec_download_message(
                summary.total_packages as int,
                summary.fetched_packages as int,
            ));
        }
        messages.push(msg);
    } else {
        let mut msg = String::from_str("Downloaded ");
        msg.append(fetched_text.as_str());
        msg.append(" packages.");
        proof {
            assert(msg@ =~= spec_download_message(
                summary.total_packages as int,
                summary.fetched_packages as int,
            ));
        }
        messages.push(msg);
    }
}

} // verus!
