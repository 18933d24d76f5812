//! Prediction and configuration locks, recorded before any assessment.
use crate::canon::{json_text, lit, push_lit, push_text};
use crate::digest::{digest_bytes, sha256_hex};
use crate::error::{invalid, quarantined, Error};
use crate::order::text_eq;
use crate::text::{is_digest, valid_digest};
use vstd::prelude::*;

verus! {

pub open spec fn bool_text(b: bool) -> Seq<u8> {
    if b {
        lit("true")
    } else {
        lit("false")
    }
}

/// The five lock fields joined by NUL bytes, the booleans as `true`/`false`.
pub open spec fn lock_material(
    protocol: Seq<char>,
    prediction: Seq<char>,
    configuration: Seq<char>,
    fit_complete: bool,
    independent_accept: bool,
) -> Seq<u8> {
    vstd::utf8::encode_utf8(protocol) + seq![0u8] + vstd::utf8::encode_utf8(prediction) + seq![0u8]
        + vstd::utf8::encode_utf8(configuration) + seq![0u8] + bool_text(fit_complete) + seq![0u8]
        + bool_text(independent_accept)
}

/// The digest of a text as a canonical JSON string.
pub open spec fn text_digest(s: Seq<char>) -> Seq<char> {
    sha256_hex(json_text(s))
}

fn digest_text_value(s: &str) -> (r: String)
    ensures
        r@ == text_digest(s@),
        is_digest(r@),
{
    let mut out: Vec<u8> = Vec::new();
    push_text(&mut out, s);
    assert(out@ =~= json_text(s@));
    digest_bytes(out.as_slice())
}

fn push_bool_text(out: &mut Vec<u8>, b: bool)
    ensures
        final(out)@ == old(out)@ + bool_text(b),
{
    if b {
        push_lit(out, "true");
    } else {
        push_lit(out, "false");
    }
}

/// Digests of a protocol, its predictions and its configuration, locked
/// together with the fit and independent-acceptance flags.
#[derive(Clone, Debug)]
pub struct PredictionLock {
    pub protocol_digest: String,
    pub prediction_digest: String,
    pub configuration_digest: String,
    pub fit_complete: bool,
    pub independent_accept: bool,
    lock_digest: String,
}

impl PredictionLock {
    pub closed spec fn protocol(&self) -> Seq<char> {
        self.protocol_digest@
    }

    pub closed spec fn prediction(&self) -> Seq<char> {
        self.prediction_digest@
    }

    pub closed spec fn configuration(&self) -> Seq<char> {
        self.configuration_digest@
    }

    pub closed spec fn fit(&self) -> bool {
        self.fit_complete
    }

    pub closed spec fn accepted(&self) -> bool {
        self.independent_accept
    }

    pub closed spec fn stored_lock(&self) -> Seq<char> {
        self.lock_digest@
    }

    /// The lock digest the current fields call for.
    pub open spec fn expected(&self) -> Seq<char> {
        sha256_hex(
            lock_material(
                self.protocol(),
                self.prediction(),
                self.configuration(),
                self.fit(),
                self.accepted(),
            ),
        )
    }

    /// The stored digests are well formed and the lock digest matches them.
    pub open spec fn consistent(&self) -> bool {
        &&& is_digest(self.protocol())
        &&& is_digest(self.prediction())
        &&& is_digest(self.configuration())
        &&& is_digest(self.stored_lock())
        &&& self.stored_lock() == self.expected()
    }

    fn expected_digest(&self) -> (r: String)
        ensures
            r@ == self.expected(),
            is_digest(r@),
    {
        let mut out: Vec<u8> = Vec::new();
        push_lit(&mut out, self.protocol_digest.as_str());
        out.push(0u8);
        push_lit(&mut out, self.prediction_digest.as_str());
        out.push(0u8);
        push_lit(&mut out, self.configuration_digest.as_str());
        out.push(0u8);
        push_bool_text(&mut out, self.fit_complete);
        out.push(0u8);
        push_bool_text(&mut out, self.independent_accept);
        assert(out@ =~= lock_material(
            self.protocol_digest@,
            self.prediction_digest@,
            self.configuration_digest@,
            self.fit_complete,
            self.independent_accept,
        ));
        digest_bytes(out.as_slice())
    }

    /// A fresh lock over the three texts, neither fitted nor accepted.
    pub fn new(protocol: &str, predictions: &str, configuration: &str) -> (r: Result<
        PredictionLock,
        Error,
    >)
        ensures
            r is Ok <==> protocol@.len() != 0 && predictions@.len() != 0 && configuration@.len()
                != 0,
            r matches Err(e) ==> e is Invalid,
            r matches Ok(l) ==> {
                &&& l.protocol() == text_digest(protocol@)
                &&& l.prediction() == text_digest(predictions@)
                &&& l.configuration() == text_digest(configuration@)
                &&& !l.fit()
                &&& !l.accepted()
                &&& l.consistent()
            },
    {
        if protocol.is_empty() || predictions.is_empty() || configuration.is_empty() {
            return Err(invalid("lock inputs must be non-empty"));
        }
        let mut lock = PredictionLock {
            protocol_digest: digest_text_value(protocol),
            prediction_digest: digest_text_value(predictions),
            configuration_digest: digest_text_value(configuration),
            fit_complete: false,
            independent_accept: false,
            lock_digest: String::new(),
        };
        lock.refresh_digest();
        Ok(lock)
    }

    fn refresh_digest(&mut self)
        ensures
            final(self).protocol() == old(self).protocol(),
            final(self).prediction() == old(self).prediction(),
            final(self).configuration() == old(self).configuration(),
            final(self).fit() == old(self).fit(),
            final(self).accepted() == old(self).accepted(),
            final(self).stored_lock() == old(self).expected(),
            is_digest(final(self).stored_lock()),
    {
        self.lock_digest = self.expected_digest();
    }

    /// Marks the fit complete and re-locks.
    pub fn lock_fit(&mut self)
        ensures
            final(self).fit(),
            final(self).accepted() == old(self).accepted(),
            final(self).protocol() == old(self).protocol(),
            final(self).prediction() == old(self).prediction(),
            final(self).configuration() == old(self).configuration(),
            final(self).stored_lock() == final(self).expected(),
    {
        self.fit_complete = true;
        self.refresh_digest();
    }

    /// Records the independent acceptance and re-locks.
    pub fn accept_independently(&mut self)
        ensures
            final(self).accepted(),
            final(self).fit() == old(self).fit(),
            final(self).protocol() == old(self).protocol(),
            final(self).prediction() == old(self).prediction(),
            final(self).configuration() == old(self).configuration(),
            final(self).stored_lock() == final(self).expected(),
    {
        self.independent_accept = true;
        self.refresh_digest();
    }

    pub fn assessment_eligible(&self) -> (r: bool)
        ensures
            r == (self.fit() && self.accepted()),
    {
        self.fit_complete && self.independent_accept
    }

    /// An inconsistent lock is invalid; a consistent one that is not yet
    /// fitted and accepted is held back.
    pub fn validate(&self) -> (r: Result<(), Error>)
        ensures
            r is Ok <==> self.consistent() && self.fit() && self.accepted(),
            !self.consistent() ==> (r matches Err(e) && e is Invalid),
            self.consistent() && !(self.fit() && self.accepted()) ==> (r matches Err(e)
                && e is Quarantined),
    {
        if !valid_digest(self.protocol_digest.as_str()) || !valid_digest(
            self.prediction_digest.as_str(),
        ) || !valid_digest(self.configuration_digest.as_str()) || !valid_digest(
            self.lock_digest.as_str(),
        ) || !text_eq(self.lock_digest.as_str(), self.expected_digest().as_str()) {
            return Err(invalid("prediction lock digest is inconsistent"));
        }
        if !self.assessment_eligible() {
            return Err(quarantined("prediction or independent acceptance lock is missing"));
        }
        Ok(())
    }

    /// The stored lock digest.
    pub fn lock_digest(&self) -> (r: &str)
        ensures
            r@ == self.stored_lock(),
    {
        self.lock_digest.as_str()
    }

    /// Rebuilds a lock from its stored fields, as a persisted record holds them.
    pub fn from_parts(
        protocol_digest: String,
        prediction_digest: String,
        configuration_digest: String,
        fit_complete: bool,
        independent_accept: bool,
        lock_digest: String,
    ) -> (r: PredictionLock)
        ensures
            r.protocol() == protocol_digest@,
            r.prediction() == prediction_digest@,
            r.configuration() == configuration_digest@,
            r.fit() == fit_complete,
            r.accepted() == independent_accept,
            r.stored_lock() == lock_digest@,
    {
        PredictionLock {
            protocol_digest,
            prediction_digest,
            configuration_digest,
            fit_complete,
            independent_accept,
            lock_digest,
        }
    }
}

} // verus!
