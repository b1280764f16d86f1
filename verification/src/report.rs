//! The report session: one attestation-report transaction against a
//! kernel entry.  The protocol writes the request's input attributes,
//! then reads the outputs; every read is guarded by the entry's
//! generation counter, which the session tracks as `expected_generation`
//! (incremented by exactly one per successful write).  A mismatch means
//! another actor wrote to the entry and is fatal to the session.

use vstd::prelude::*;
use vstd::string::StrSliceExecFns;
use vstd::string::StringExecFns;
use crate::client::StoragePort;
use crate::num::dec_chars;
use crate::num::fmt_u64;
use crate::tsm::attr_view;
use crate::tsm::parse_tsm_path;
use crate::tsm::read_uint64_file;
use crate::tsm::spec_parse;
use crate::tsm::spec_render;
use crate::tsm::TsmError;
use crate::tsm::TsmPath;
use vstd::utf8::decode_utf8;
use vstd::utf8::encode_utf8;
use vstd::utf8::valid_utf8;

verus! {

/// The privilege level a report may be requested at.
#[derive(Debug, PartialEq, Eq, Structural)]
pub struct Privilege {
    pub level: u32,
}

/// What a caller asks of one report transaction.
#[derive(Debug)]
pub struct Request {
    pub in_blob: Vec<u8>,
    pub privilege: Option<Privilege>,
    pub get_aux_blob: bool,
}

/// What a completed report transaction yields.
#[derive(Debug)]
pub struct Response {
    pub aux_blob: Option<Vec<u8>>,
    pub out_blob: Vec<u8>,
    pub provider: String,
    pub manifest_blob: Option<Vec<u8>>,
}

/// A failure of the report protocol.
#[derive(Debug)]
pub enum ReportError {
    /// The kernel reported generation `got` where the session expected
    /// `want` while reading `attribute`: another actor mutated the
    /// entry, and the session must be discarded.
    GenerationErr { got: u64, want: u64, attribute: String },
    /// The storage port failed while accessing `attribute`.
    Io { attribute: String },
    /// The generation attribute did not hold decimal text.
    Parse { attribute: String },
    /// The entry path handed to the session is not a TSM address.
    InvalidPath { input: String },
}

/// One in-flight or completed report transaction bound to one kernel
/// entry.
#[derive(Debug)]
pub struct OpenReport<P> {
    pub in_blob: Vec<u8>,
    pub privilege: Option<Privilege>,
    pub get_aux_blob: bool,
    pub service_provider: String,
    pub service_guid: String,
    pub service_manifest_version: String,
    pub entry: TsmPath,
    pub expected_generation: u64,
    pub client: P,
}

/// One write the protocol will perform: an attribute name and the bytes
/// to store under it.
#[derive(Debug)]
pub struct WriteStep {
    pub attribute: String,
    pub data: Vec<u8>,
}

/// The session's request configuration and bound entry, i.e. everything
/// except the tracked generation and the storage port.
pub open spec fn same_config<P>(a: OpenReport<P>, b: OpenReport<P>) -> bool {
    &&& a.in_blob@ == b.in_blob@
    &&& a.privilege == b.privilege
    &&& a.get_aux_blob == b.get_aux_blob
    &&& a.service_provider@ == b.service_provider@
    &&& a.service_guid@ == b.service_guid@
    &&& a.service_manifest_version@ == b.service_manifest_version@
    &&& a.entry.subsystem@ == b.entry.subsystem@
    &&& a.entry.entry@ == b.entry.entry@
    &&& attr_view(a.entry.attribute) == attr_view(b.entry.attribute)
}

/// The ordered writes the protocol performs for this session: the input
/// blob always; the privilege level only when one was supplied; each
/// service string only when non-empty.
pub open spec fn spec_write_plan<P>(r: OpenReport<P>) -> Seq<(Seq<char>, Seq<u8>)> {
    seq![("inblob"@, r.in_blob@)] + (match r.privilege {
        Some(p) => seq![("privlevel"@, encode_utf8(dec_chars(p.level as nat)))],
        None => Seq::empty(),
    }) + (if r.service_provider@.len() > 0 {
        seq![("service_provider"@, encode_utf8(r.service_provider@))]
    } else {
        Seq::empty()
    }) + (if r.service_guid@.len() > 0 {
        seq![("service_guid"@, encode_utf8(r.service_guid@))]
    } else {
        Seq::empty()
    }) + (if r.service_manifest_version@.len() > 0 {
        seq![("service_manifest_version"@, encode_utf8(r.service_manifest_version@))]
    } else {
        Seq::empty()
    })
}

/// How many writes the protocol performs for this session.
pub open spec fn spec_num_writes<P>(r: OpenReport<P>) -> int {
    spec_write_plan(r).len() as int
}

/// Compares a generation value reported by the kernel against the
/// session's tracked value; a difference is the fatal concurrency
/// signal, reported with both values and the attribute being read.
pub fn check_generation(got: u64, want: u64, attribute: &str) -> (r: Result<(), ReportError>)
    ensures
        r is Ok <==> got == want,
        r matches Err(e) ==> e matches ReportError::GenerationErr { got: g, want: w, attribute: a }
            && g == got && w == want && a@ == attribute@,
{
    if got != want {
        Err(ReportError::GenerationErr { got, want, attribute: attribute.to_owned() })
    } else {
        Ok(())
    }
}

/// Relies on `String::from_utf8`: `Ok` exactly when the bytes are valid
/// UTF-8, in which case the string is their decoding.
#[verifier::external_body]
fn utf8_to_string(b: Vec<u8>) -> (r: Option<String>)
    ensures
        r is Some <==> valid_utf8(b@),
        r matches Some(s) ==> s@ == decode_utf8(b@),
{
    String::from_utf8(b).ok()
}

/// Decodes the provider attribute leniently: the name is informational
/// only, so malformed UTF-8 degrades to an empty string instead of
/// failing the whole transaction.
pub fn decode_provider(data: Vec<u8>) -> (r: String)
    ensures
        valid_utf8(data@) ==> r@ == decode_utf8(data@),
        !valid_utf8(data@) ==> r@ == Seq::<char>::empty(),
{
    match utf8_to_string(data) {
        Some(s) => s,
        None => String::new(),
    }
}

impl<P: StoragePort> OpenReport<P> {
    /// The rendered address of one attribute of this session's entry.
    pub fn attribute(&self, subtree: &str) -> (r: String)
        ensures
            r@ == spec_render(self.entry.subsystem@, self.entry.entry@, Some(subtree@)),
    {
        self.entry.attr_string(subtree)
    }

    /// The writes `get` will perform, in order, for the session as
    /// currently configured.
    pub fn write_plan(&self) -> (steps: Vec<WriteStep>)
        ensures
            steps@.len() == spec_write_plan(*self).len(),
            forall|i: int| 0 <= i < steps@.len() ==> steps@[i].attribute@ == spec_write_plan(
                *self,
            )[i].0 && steps@[i].data@ == spec_write_plan(*self)[i].1,
    {
        let mut steps: Vec<WriteStep> = Vec::new();
        steps.push(
            WriteStep {
                attribute: String::from_str("inblob"),
                data: vstd::slice::slice_to_vec(self.in_blob.as_slice()),
            },
        );
        match &self.privilege {
            Some(p) => {
                let text = fmt_u64(p.level as u64);
                steps.push(
                    WriteStep {
                        attribute: String::from_str("privlevel"),
                        data: text.as_str().as_bytes_vec(),
                    },
                );
            },
            None => {},
        }
        if !self.service_provider.as_str().is_empty() {
            steps.push(
                WriteStep {
                    attribute: String::from_str("service_provider"),
                    data: self.service_provider.as_str().as_bytes_vec(),
                },
            );
        }
        if !self.service_guid.as_str().is_empty() {
            steps.push(
                WriteStep {
                    attribute: String::from_str("service_guid"),
                    data: self.service_guid.as_str().as_bytes_vec(),
                },
            );
        }
        if !self.service_manifest_version.as_str().is_empty() {
            steps.push(
                WriteStep {
                    attribute: String::from_str("service_manifest_version"),
                    data: self.service_manifest_version.as_str().as_bytes_vec(),
                },
            );
        }
        steps
    }

    /// Writes one attribute of the entry through the storage port.  A
    /// successful write is a kernel state transition, so the tracked
    /// generation advances by exactly one; a failed write leaves it
    /// unchanged.
    pub fn write_option(&mut self, subtree: &str, data: &[u8]) -> (r: Result<(), ReportError>)
        requires
            old(self).expected_generation < u64::MAX,
        ensures
            same_config(*final(self), *old(self)),
            r is Ok ==> final(self).expected_generation == old(self).expected_generation + 1,
            r is Err ==> final(self).expected_generation == old(self).expected_generation,
            r matches Err(e) ==> e matches ReportError::Io { attribute } && attribute@ == subtree@,
    {
        let path = self.entry.attr_string(subtree);
        match self.client.write_file(path.as_str(), data) {
            Ok(_) => {
                self.expected_generation = self.expected_generation + 1;
                Ok(())
            },
            Err(_) => Err(ReportError::Io { attribute: subtree.to_owned() }),
        }
    }

    /// Reads one attribute of the entry, preceded by a read of its
    /// sibling `generation` attribute: if the kernel's counter differs
    /// from the tracked one, the read fails with the exact got/want
    /// pair and the attribute name, before any data is fetched.  Reads
    /// never advance the tracked generation.
    pub fn read_option(&mut self, subtree: &str) -> (r: Result<Vec<u8>, ReportError>)
        ensures
            same_config(*final(self), *old(self)),
            final(self).expected_generation == old(self).expected_generation,
            r matches Err(ReportError::GenerationErr { got, want, attribute }) ==> got != want
                && want == old(self).expected_generation && attribute@ == subtree@,
            r matches Err(ReportError::Io { attribute }) ==> attribute@ == subtree@ || attribute@
                == "generation"@,
            r matches Err(ReportError::Parse { attribute }) ==> attribute@ == "generation"@,
            r matches Err(ReportError::InvalidPath { .. }) ==> false,
    {
        let generation_path = self.entry.attr_string("generation");
        let got_generation = match read_uint64_file(&mut self.client, generation_path.as_str()) {
            Ok(g) => g,
            Err(e) => {
                return Err(
                    match e {
                        TsmError::Parse { .. } => ReportError::Parse {
                            attribute: String::from_str("generation"),
                        },
                        _ => ReportError::Io { attribute: String::from_str("generation") },
                    },
                );
            },
        };
        match check_generation(got_generation, self.expected_generation, subtree) {
            Ok(_) => {},
            Err(e) => {
                return Err(e);
            },
        }
        let path = self.entry.attr_string(subtree);
        match self.client.read_file(path.as_str()) {
            Ok(d) => Ok(d),
            Err(_) => Err(ReportError::Io { attribute: subtree.to_owned() }),
        }
    }

    /// Runs the full report protocol: the write plan in order, then the
    /// guarded reads — the auxiliary blob only when requested, the
    /// output blob and provider name always, the manifest blob only
    /// when a service provider was named.  On success the tracked
    /// generation has advanced by exactly the number of planned writes.
    #[verifier::loop_isolation(false)]
    pub fn get(&mut self) -> (r: Result<Response, ReportError>)
        requires
            old(self).expected_generation + 5 <= u64::MAX,
        ensures
            same_config(*final(self), *old(self)),
            r is Ok ==> final(self).expected_generation == old(self).expected_generation
                + spec_num_writes(*old(self)),
            r matches Ok(resp) ==> (resp.aux_blob is Some <==> old(self).get_aux_blob) && (
            resp.manifest_blob is Some <==> old(self).service_provider@.len() > 0),
            r matches Err(ReportError::GenerationErr { got, want, attribute }) ==> got != want
                && want == final(self).expected_generation && final(self).expected_generation
                == old(self).expected_generation + spec_num_writes(*old(self)) && (attribute@
                == "auxblob"@ || attribute@ == "outblob"@ || attribute@ == "provider"@
                || attribute@ == "manifestblob"@),
    {
        let steps = self.write_plan();
        proof {
            assert(steps@.len() <= 5);
        }
        let mut idx: usize = 0;
        while idx < steps.len()
            invariant
                0 <= idx <= steps@.len(),
                same_config(*self, *old(self)),
                self.expected_generation == old(self).expected_generation + idx,
            decreases steps@.len() - idx,
        {
            let r = self.write_option(steps[idx].attribute.as_str(), steps[idx].data.as_slice());
            match r {
                Ok(_) => {},
                Err(e) => {
                    return Err(e);
                },
            }
            idx = idx + 1;
        }
        let aux_blob: Option<Vec<u8>> = if self.get_aux_blob {
            match self.read_option("auxblob") {
                Ok(d) => Some(d),
                Err(e) => {
                    return Err(e);
                },
            }
        } else {
            None
        };
        let out_blob = match self.read_option("outblob") {
            Ok(d) => d,
            Err(e) => {
                return Err(e);
            },
        };
        let provider_data = match self.read_option("provider") {
            Ok(d) => d,
            Err(e) => {
                return Err(e);
            },
        };
        let provider = decode_provider(provider_data);
        let manifest_blob: Option<Vec<u8>> = if !self.service_provider.as_str().is_empty() {
            match self.read_option("manifestblob") {
                Ok(d) => Some(d),
                Err(e) => {
                    return Err(e);
                },
            }
        } else {
            None
        };
        Ok(Response { aux_blob, out_blob, provider, manifest_blob })
    }
}

/// Binds a report session to an already existing kernel entry at
/// `entry_path`, reading its current generation as the session's
/// starting point.  The session starts unconfigured: empty input blob,
/// no privilege, no auxiliary-blob request, no service identity.
pub fn unsafe_wrap<P: StoragePort>(client: P, entry_path: &str) -> (r: Result<
    OpenReport<P>,
    ReportError,
>)
    ensures
        r matches Ok(rep) ==> {
            &&& spec_parse(entry_path@) matches Some(t) && rep.entry.entry@ == t.1
            &&& rep.entry.subsystem@ == "report"@
            &&& attr_view(rep.entry.attribute) is None
            &&& rep.in_blob@ == Seq::<u8>::empty()
            &&& rep.privilege is None
            &&& !rep.get_aux_blob
            &&& rep.service_provider@ == Seq::<char>::empty()
            &&& rep.service_guid@ == Seq::<char>::empty()
            &&& rep.service_manifest_version@ == Seq::<char>::empty()
        },
        r matches Err(ReportError::InvalidPath { input }) <==> spec_parse(entry_path@) is None,
        r matches Err(ReportError::InvalidPath { input }) ==> input@ == entry_path@,
{
    let parsed = match parse_tsm_path(entry_path) {
        Ok(p) => p,
        Err(_) => {
            return Err(ReportError::InvalidPath { input: entry_path.to_owned() });
        },
    };
    let entry = TsmPath {
        subsystem: String::from_str("report"),
        entry: parsed.entry,
        attribute: None,
    };
    let mut open_report = OpenReport {
        client,
        entry,
        in_blob: Vec::new(),
        privilege: None,
        get_aux_blob: false,
        service_provider: String::new(),
        service_guid: String::new(),
        service_manifest_version: String::new(),
        expected_generation: 0,
    };
    let generation_attr = open_report.entry.attr_string("generation");
    let generation = match read_uint64_file(&mut open_report.client, generation_attr.as_str()) {
        Ok(g) => g,
        Err(e) => {
            return Err(
                match e {
                    TsmError::Parse { .. } => ReportError::Parse {
                        attribute: String::from_str("generation"),
                    },
                    _ => ReportError::Io { attribute: String::from_str("generation") },
                },
            );
        },
    };
    open_report.expected_generation = generation;
    Ok(open_report)
}

/// Allocates a fresh kernel entry under the report subsystem root and
/// binds an unconfigured session to it.
pub fn create_open_report<P: StoragePort>(client: P) -> (r: Result<OpenReport<P>, ReportError>)
    ensures
        r matches Ok(rep) ==> {
            &&& rep.entry.subsystem@ == "report"@
            &&& attr_view(rep.entry.attribute) is None
            &&& rep.in_blob@ == Seq::<u8>::empty()
            &&& rep.privilege is None
            &&& !rep.get_aux_blob
            &&& rep.service_provider@ == Seq::<char>::empty()
            &&& rep.service_guid@ == Seq::<char>::empty()
            &&& rep.service_manifest_version@ == Seq::<char>::empty()
        },
{
    let mut client = client;
    let entry_path = match client.mkdir_temp("/sys/kernel/config/tsm/report", "entry") {
        Ok(p) => p,
        Err(_) => {
            return Err(
                ReportError::Io { attribute: String::from_str("/sys/kernel/config/tsm/report") },
            );
        },
    };
    unsafe_wrap(client, entry_path.as_str())
}

/// Allocates a fresh kernel entry and configures the session from the
/// request: its input blob, privilege, and auxiliary-blob flag.
pub fn create<P: StoragePort>(client: P, req: Request) -> (r: Result<OpenReport<P>, ReportError>)
    ensures
        r matches Ok(rep) ==> {
            &&& rep.in_blob@ == req.in_blob@
            &&& rep.privilege == req.privilege
            &&& rep.get_aux_blob == req.get_aux_blob
            &&& rep.entry.subsystem@ == "report"@
            &&& attr_view(rep.entry.attribute) is None
            &&& rep.service_provider@ == Seq::<char>::empty()
            &&& rep.service_guid@ == Seq::<char>::empty()
            &&& rep.service_manifest_version@ == Seq::<char>::empty()
        },
{
    match create_open_report(client) {
        Ok(mut r) => {
            r.in_blob = req.in_blob;
            r.privilege = req.privilege;
            r.get_aux_blob = req.get_aux_blob;
            Ok(r)
        },
        Err(e) => Err(e),
    }
}

} // verus!
