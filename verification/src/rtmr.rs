//! The RTMR register client: extending a runtime measurement register
//! with a digest.  The kernel backs each register index with one
//! configfs directory; every call re-scans the existing directories for
//! the requested index and creates a fresh one on a miss.

use vstd::prelude::*;
use vstd::string::StrSliceExecFns;
use vstd::string::StringExecFns;
use crate::client::StoragePort;
use crate::num::fmt_u64;
use crate::tsm::attr_view;
use crate::tsm::read_uint64_file;
use crate::tsm::TsmError;
use crate::tsm::TsmPath;

verus! {

/// A failure of the extend workflow.
#[derive(Debug)]
pub enum ExtendError {
    /// The digest does not have the hash function's output length.
    InvalidDigestLength { expected: usize, actual: usize },
    /// The register index is negative.
    InvalidIndex(isize),
    /// The storage port failed while accessing `path`.
    Io { path: String },
    /// The index attribute at `path` did not hold decimal text.
    Parse { path: String },
}

/// One kernel directory backing a specific RTMR index.  The directory's
/// stored `index` attribute matches the index it was resolved for.
#[derive(Debug)]
pub struct RtmrEntry {
    pub index: usize,
    pub path: TsmPath,
}

/// Relies on `sha2::Sha384`: the digest size of SHA-384 is 48 bytes.
#[verifier::external_body]
fn sha384_output_size() -> (n: usize)
    ensures
        n == 48,
{
    <sha2::Sha384 as sha2::Digest>::output_size()
}

/// `s` with its trailing separators removed.
pub open spec fn strip_trailing_slashes(s: Seq<char>) -> Seq<char>
    decreases s.len(),
{
    if s.len() > 0 && s.last() == '/' {
        strip_trailing_slashes(s.drop_last())
    } else {
        s
    }
}

/// The number of trailing characters of `s` that are not separators.
pub open spec fn suffix_len(s: Seq<char>) -> int
    decreases s.len(),
{
    if s.len() > 0 && s.last() != '/' {
        1 + suffix_len(s.drop_last())
    } else {
        0
    }
}

/// The name after the final separator of `s`, ignoring trailing
/// separators.
pub open spec fn spec_last_component(s: Seq<char>) -> Seq<char> {
    let t = strip_trailing_slashes(s);
    t.skip(t.len() - suffix_len(t))
}

proof fn lemma_strip_trailing_is_take(s: Seq<char>, m: int)
    requires
        0 <= m <= s.len(),
        forall|j: int| m <= j < s.len() ==> s[j] == '/',
        m == 0 || s[m - 1] != '/',
    ensures
        strip_trailing_slashes(s) == s.take(m),
    decreases s.len() - m,
{
    if m == s.len() {
        assert(s.take(m) =~= s);
    } else {
        lemma_strip_trailing_is_take(s.drop_last(), m);
        assert(s.drop_last().take(m) =~= s.take(m));
    }
}

proof fn lemma_suffix_len_at(s: Seq<char>, m: int)
    requires
        0 <= m <= s.len(),
        forall|j: int| m <= j < s.len() ==> s[j] != '/',
        m == 0 || s[m - 1] == '/',
    ensures
        suffix_len(s) == s.len() - m,
    decreases s.len() - m,
{
    if m == s.len() {
    } else {
        lemma_suffix_len_at(s.drop_last(), m);
    }
}

/// The name of the directory a path addresses: what follows its last
/// separator, with trailing separators ignored.  `None` when nothing
/// follows, or when the path ends in the parent-directory marker.
#[verifier::loop_isolation(false)]
fn last_component(s: &str) -> (r: Option<String>)
    ensures
        r is Some <==> spec_last_component(s@).len() > 0 && spec_last_component(s@) != seq![
            '.',
            '.',
        ],
        r matches Some(c) ==> c@ == spec_last_component(s@),
{
    let n: usize = s.unicode_len();
    let mut e: usize = n;
    while e > 0 && s.get_char(e - 1) == '/'
        invariant
            0 <= e <= n,
            n == s@.len(),
            forall|j: int| e <= j < n ==> s@[j] == '/',
        decreases e,
    {
        e = e - 1;
    }
    proof {
        lemma_strip_trailing_is_take(s@, e as int);
    }
    let mut b: usize = e;
    while b > 0 && s.get_char(b - 1) != '/'
        invariant
            0 <= b <= e,
            forall|j: int| b <= j < e ==> s@[j] != '/',
        decreases b,
    {
        b = b - 1;
    }
    proof {
        lemma_suffix_len_at(s@.take(e as int), b as int);
        assert(s@.take(e as int).skip(b as int) =~= s@.subrange(b as int, e as int));
    }
    if b == e {
        return None;
    }
    if e - b == 2 && s.get_char(b) == '.' && s.get_char(b + 1) == '.' {
        proof {
            assert(spec_last_component(s@) =~= seq!['.', '.']);
        }
        return None;
    }
    proof {
        if e - b == 2 {
            assert(spec_last_component(s@) != seq!['.', '.']);
        } else {
            assert(spec_last_component(s@).len() != 2);
        }
    }
    Some(s.substring_char(b, e).to_owned())
}

/// Scans the entries under the RTMR subsystem root, in the port's
/// (sorted) listing order, for the first directory whose stored `index`
/// attribute equals `index`.
pub fn search_rtmr_interface<P: StoragePort>(client: &mut P, index: usize) -> (r: Result<
    Option<RtmrEntry>,
    ExtendError,
>)
    ensures
        r matches Ok(Some(e)) ==> e.index == index && e.path.subsystem@ == "rtmr"@ && attr_view(
            e.path.attribute,
        ) is None,
        r matches Err(e) ==> e matches ExtendError::Io { .. } || e matches ExtendError::Parse {
            ..
        },
{
    let names = match client.read_dir("/sys/kernel/config/tsm/rtmr/") {
        Ok(v) => v,
        Err(_) => {
            return Err(ExtendError::Io { path: String::from_str("/sys/kernel/config/tsm/rtmr/") });
        },
    };
    let mut i: usize = 0;
    while i < names.len()
        invariant
            0 <= i <= names@.len(),
        decreases names@.len() - i,
    {
        let entry = TsmPath {
            subsystem: String::from_str("rtmr"),
            entry: names[i].clone(),
            attribute: None,
        };
        let path_index = entry.attr_string("index");
        let stored = match read_uint64_file(client, path_index.as_str()) {
            Ok(v) => v,
            Err(e) => {
                return Err(
                    match e {
                        TsmError::Parse { path } => ExtendError::Parse { path },
                        TsmError::Io { path } => ExtendError::Io { path },
                        TsmError::InvalidInput { input } => ExtendError::Io { path: input },
                    },
                );
            },
        };
        if stored == index as u64 {
            return Ok(Some(RtmrEntry { index, path: entry }));
        }
        i = i + 1;
    }
    Ok(None)
}

/// Creates a fresh kernel directory for `index` under the RTMR
/// subsystem root — uniquely named, its name prefixed with the index
/// for debuggability — and stores the index in its `index` attribute.
pub fn create_rtmr_interface<P: StoragePort>(client: &mut P, index: usize) -> (r: Result<
    RtmrEntry,
    ExtendError,
>)
    ensures
        r matches Ok(e) ==> e.index == index && e.path.subsystem@ == "rtmr"@ && attr_view(
            e.path.attribute,
        ) is None,
        r matches Err(e) ==> e matches ExtendError::Io { .. } || e matches ExtendError::Parse {
            ..
        },
{
    let mut prefix = String::from_str("rtmr");
    let index_text = fmt_u64(index as u64);
    prefix.append(index_text.as_str());
    prefix.append("-");
    let dir = match client.mkdir_temp("/sys/kernel/config/tsm/rtmr", prefix.as_str()) {
        Ok(d) => d,
        Err(_) => {
            return Err(ExtendError::Io { path: String::from_str("/sys/kernel/config/tsm/rtmr") });
        },
    };
    let entry_name = match last_component(dir.as_str()) {
        Some(nm) => nm,
        None => {
            return Err(ExtendError::Io { path: dir });
        },
    };
    let entry = TsmPath {
        subsystem: String::from_str("rtmr"),
        entry: entry_name,
        attribute: None,
    };
    let path_index = entry.attr_string("index");
    let data = fmt_u64(index as u64);
    match client.write_file(path_index.as_str(), data.as_str().as_bytes()) {
        Ok(_) => Ok(RtmrEntry { index, path: entry }),
        Err(_) => Err(ExtendError::Io { path: path_index }),
    }
}

/// Resolves the kernel directory backing `index`: the first existing
/// entry whose stored index matches, or a freshly created one.
pub fn get_rtmr_interface<P: StoragePort>(client: &mut P, index: usize) -> (r: Result<
    RtmrEntry,
    ExtendError,
>)
    ensures
        r matches Ok(e) ==> e.index == index && e.path.subsystem@ == "rtmr"@ && attr_view(
            e.path.attribute,
        ) is None,
        r matches Err(e) ==> e matches ExtendError::Io { .. } || e matches ExtendError::Parse {
            ..
        },
{
    match search_rtmr_interface(client, index) {
        Ok(Some(e)) => Ok(e),
        Ok(None) => create_rtmr_interface(client, index),
        Err(e) => Err(e),
    }
}

impl RtmrEntry {
    /// Writes the digest bytes to the entry's `digest` attribute, which
    /// instructs the kernel to fold them into the register.
    pub fn extend_digest<P: StoragePort>(&self, client: &mut P, hash: &[u8]) -> (r: Result<
        (),
        ExtendError,
    >)
        ensures
            r matches Err(e) ==> e matches ExtendError::Io { .. },
    {
        let path = self.path.attr_string("digest");
        match client.write_file(path.as_str(), hash) {
            Ok(_) => Ok(()),
            Err(_) => Err(ExtendError::Io { path }),
        }
    }
}

/// Extends RTMR `rtmr` with `digest`.  The digest length is validated
/// first (it must be the SHA-384 output size), then the index; the
/// backing entry is then resolved by scan-or-create and the digest
/// written to it.  Success is the absence of an I/O failure.
pub fn extend_digest<P: StoragePort>(client: &mut P, rtmr: isize, digest: &[u8]) -> (r: Result<
    (),
    ExtendError,
>)
    ensures
        r matches Err(ExtendError::InvalidDigestLength { expected, actual }) <==> digest@.len()
            != 48,
        r matches Err(ExtendError::InvalidDigestLength { expected, actual }) ==> expected == 48
            && actual == digest@.len(),
        r matches Err(ExtendError::InvalidIndex(i)) <==> digest@.len() == 48 && rtmr < 0,
        r matches Err(ExtendError::InvalidIndex(i)) ==> i == rtmr,
{
    let expected = sha384_output_size();
    if digest.len() != expected {
        return Err(ExtendError::InvalidDigestLength { expected, actual: digest.len() });
    }
    if rtmr < 0 {
        return Err(ExtendError::InvalidIndex(rtmr));
    }
    let entry = match get_rtmr_interface(client, rtmr as usize) {
        Ok(e) => e,
        Err(e) => {
            return Err(e);
        },
    };
    entry.extend_digest(client, digest)
}

} // verus!
