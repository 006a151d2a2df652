//! Witness cosignatures over checkpoints: which responses count, and when
//! there are enough of them.

use vstd::prelude::*;
use crate::bytes::{number_text, push_text, decimal_text, to_vec};
use crate::crypto::sig::{dilithium3_verify, signature_accepted};
use crate::transparency::{build_checkpoint_note, checkpoint_note};

verus! {

/// A witness's cosignature over a checkpoint.
#[derive(Debug, Clone)]
pub struct WitnessSignature {
    pub witness_id: String,
    pub tree_size: usize,
    pub root_hash: [u8; 32],
    pub signature: Vec<u8>,
    pub timestamp: u64,
}

/// The model of a `WitnessSignature`.
pub struct WitnessSignatureView {
    pub witness_id: Seq<char>,
    pub tree_size: usize,
    pub root_hash: Seq<u8>,
    pub signature: Seq<u8>,
    pub timestamp: u64,
}

impl View for WitnessSignature {
    type V = WitnessSignatureView;

    open spec fn view(&self) -> WitnessSignatureView {
        WitnessSignatureView {
            witness_id: self.witness_id@,
            tree_size: self.tree_size,
            root_hash: self.root_hash@,
            signature: self.signature@,
            timestamp: self.timestamp,
        }
    }
}

impl WitnessSignatureView {
    /// The message that a witness signs: the tree size as eight
    /// little-endian bytes, the root hash, and the timestamp as eight
    /// little-endian bytes.
    pub open spec fn message(self) -> Seq<u8> {
        checkpoint_note(self.tree_size as nat, self.root_hash, self.timestamp)
    }

    /// Whether `public_key` accepts the cosignature.
    pub open spec fn accepted_by(self, public_key: Seq<u8>) -> bool {
        signature_accepted(public_key, self.message(), self.signature)
    }
}

/// A configured witness.
#[derive(Debug, Clone)]
pub struct WitnessEndpoint {
    pub id: String,
    pub url: String,
    pub public_key: Vec<u8>,
}

/// Collects cosignatures from the configured witnesses.
pub struct WitnessCoordinator {
    witnesses: Vec<WitnessEndpoint>,
    quorum_threshold: usize,
}

/// The cosignature behind an optional response.
pub open spec fn response_view(response: Option<WitnessSignature>) -> Option<WitnessSignatureView> {
    match response {
        Some(sig) => Some(sig@),
        None => None,
    }
}

/// The responses that count, in the order of the witnesses: those that are
/// there and that the witness's public key accepts.
pub open spec fn accepted_responses(
    responses: Seq<Option<WitnessSignatureView>>,
    keys: Seq<Seq<u8>>,
) -> Seq<WitnessSignatureView>
    decreases responses.len(),
{
    if responses.len() == 0 {
        Seq::empty()
    } else {
        let before = accepted_responses(responses.drop_last(), keys);
        let i = responses.len() - 1;
        match responses.last() {
            Some(sig) => if i < keys.len() && sig.accepted_by(keys[i]) {
                before.push(sig)
            } else {
                before
            },
            None => before,
        }
    }
}

/// The text of the refusal for want of cosignatures.
pub open spec fn insufficient_text(have: nat, need: nat) -> Seq<char> {
    "Insufficient witness signatures: "@ + decimal_text(have) + " < "@ + decimal_text(need)
}

/// Identifier, address and public key of a witness, as values.
pub open spec fn endpoint_view(endpoint: WitnessEndpoint) -> (Seq<char>, Seq<char>, Seq<u8>) {
    (endpoint.id@, endpoint.url@, endpoint.public_key@)
}

/// Identifier, address and public key of a witness as it is configured,
/// as values.
pub open spec fn configured_view(witness: (String, String, Vec<u8>)) -> (Seq<char>, Seq<char>, Seq<u8>) {
    (witness.0@, witness.1@, witness.2@)
}

impl WitnessCoordinator {
    /// The witnesses, in their order: identifier, address and public key.
    pub closed spec fn endpoints(&self) -> Seq<(Seq<char>, Seq<char>, Seq<u8>)> {
        Seq::new(self.witnesses@.len(), |i: int| endpoint_view(self.witnesses@[i]))
    }

    /// The public keys of the witnesses, in their order.
    pub open spec fn keys(&self) -> Seq<Seq<u8>> {
        Seq::new(self.endpoints().len(), |i: int| self.endpoints()[i].2)
    }

    /// The number of accepted cosignatures that a cosigned checkpoint
    /// needs.
    pub closed spec fn quorum(&self) -> usize {
        self.quorum_threshold
    }

    /// A coordinator for the witnesses, each given by identifier, address
    /// and public key, and the number of cosignatures that make a quorum.
    pub fn new(witnesses: Vec<(String, String, Vec<u8>)>, quorum: usize) -> (coordinator: WitnessCoordinator)
        ensures
            coordinator.quorum() == quorum,
            coordinator.endpoints() == Seq::new(
                witnesses@.len(),
                |i: int| configured_view(witnesses@[i]),
            ),
    {
        let mut endpoints: Vec<WitnessEndpoint> = Vec::new();
        let mut i: usize = 0;
        while i < witnesses.len()
            invariant
                i <= witnesses@.len(),
                endpoints@.len() == i,
                forall|j: int|
                    0 <= j < i ==> endpoint_view(#[trigger] endpoints@[j]) == configured_view(
                        witnesses@[j],
                    ),
            decreases witnesses@.len() - i,
        {
            let w = &witnesses[i];
            endpoints.push(
                WitnessEndpoint {
                    id: w.0.clone(),
                    url: w.1.clone(),
                    public_key: to_vec(w.2.as_slice()),
                },
            );
            i += 1;
        }
        let coordinator = WitnessCoordinator { witnesses: endpoints, quorum_threshold: quorum };
        assert(coordinator.endpoints() =~= Seq::new(
            witnesses@.len(),
            |i: int| configured_view(witnesses@[i]),
        ));
        coordinator
    }

    /// The number of cosignatures that make a quorum.
    pub fn quorum_threshold(&self) -> (quorum: usize)
        ensures
            quorum == self.quorum(),
    {
        self.quorum_threshold
    }

    /// The number of configured witnesses.
    pub fn witness_count(&self) -> (count: usize)
        ensures
            count == self.keys().len(),
    {
        self.witnesses.len()
    }

    /// The configured witness at `index`.
    pub fn witness(&self, index: usize) -> (endpoint: Option<&WitnessEndpoint>)
        ensures
            endpoint is Some <==> index < self.endpoints().len(),
            endpoint matches Some(w) ==> endpoint_view(*w) == self.endpoints()[index as int],
    {
        if index < self.witnesses.len() {
            Some(&self.witnesses[index])
        } else {
            None
        }
    }

    /// Whether `public_key` accepts a witness's cosignature over the tree
    /// size, the root hash and the timestamp that it names. A malformed key
    /// or signature is not accepted.
    pub fn verify_witness_signature(&self, sig: &WitnessSignature, public_key: &[u8]) -> (accepted: bool)
        ensures
            accepted == sig@.accepted_by(public_key@),
    {
        let msg = build_checkpoint_note(sig.tree_size, &sig.root_hash, sig.timestamp);
        match dilithium3_verify(public_key, msg.as_slice(), sig.signature.as_slice()) {
            Ok(accepted) => accepted,
            Err(_) => false,
        }
    }

    /// Judges the response of the witness at `index`: it is taken where
    /// that witness's public key accepts its signature, and refused
    /// otherwise.
    pub fn accept_response(&self, index: usize, response: WitnessSignature) -> (res: Result<WitnessSignature, String>)
        ensures
            res is Ok <==> index < self.keys().len() && response@.accepted_by(
                self.keys()[index as int],
            ),
            res matches Ok(sig) ==> sig@ == response@,
            res matches Err(e) ==> e@ == "Invalid witness signature"@,
    {
        if index < self.witnesses.len() && self.verify_witness_signature(
            &response,
            self.witnesses[index].public_key.as_slice(),
        ) {
            Ok(response)
        } else {
            Err("Invalid witness signature".to_owned())
        }
    }

    /// Decides on the responses of the witnesses, one for each witness in
    /// their order, absent where the witness failed: the accepted
    /// cosignatures where they reach the quorum, and a refusal otherwise.
    /// Responses beyond the quorum are taken along.
    pub fn collect_cosignatures(&self, responses: Vec<Option<WitnessSignature>>) -> (res: Result<Vec<WitnessSignature>, String>)
        ensures
            ({
                let accepted = accepted_responses(
                    Seq::new(responses@.len(), |i: int| response_view(responses@[i])),
                    self.keys(),
                );
                &&& res is Ok <==> accepted.len() >= self.quorum()
                &&& res matches Ok(sigs) ==> Seq::new(sigs@.len(), |i: int| sigs@[i]@) == accepted
                &&& res matches Err(e) ==> e@ == insufficient_text(accepted.len(), self.quorum() as nat)
            }),
    {
        let ghost all = Seq::new(responses@.len(), |i: int| response_view(responses@[i]));
        let mut signatures: Vec<WitnessSignature> = Vec::new();
        let mut i: usize = 0;
        proof {
            assert(all.take(0) =~= Seq::<Option<WitnessSignatureView>>::empty());
        }
        while i < responses.len()
            invariant
                i <= responses@.len(),
                all == Seq::new(responses@.len(), |i: int| response_view(responses@[i])),
                Seq::new(signatures@.len(), |j: int| signatures@[j]@) == accepted_responses(
                    all.take(i as int),
                    self.keys(),
                ),
            decreases responses@.len() - i,
        {
            let ghost before = Seq::new(signatures@.len(), |j: int| signatures@[j]@);
            proof {
                assert(all.take(i + 1).drop_last() =~= all.take(i as int));
                assert(all.take(i + 1).last() == response_view(responses@[i as int]));
            }
            match &responses[i] {
                Some(sig) => {
                    if i < self.witnesses.len() && self.verify_witness_signature(
                        sig,
                        self.witnesses[i].public_key.as_slice(),
                    ) {
                        let kept = WitnessSignature {
                            witness_id: sig.witness_id.clone(),
                            tree_size: sig.tree_size,
                            root_hash: sig.root_hash,
                            signature: to_vec(sig.signature.as_slice()),
                            timestamp: sig.timestamp,
                        };
                        signatures.push(kept);
                        assert(Seq::new(signatures@.len(), |j: int| signatures@[j]@) =~= before.push(
                            sig@,
                        ));
                    }
                },
                None => {},
            }
            i += 1;
        }
        proof {
            assert(all.take(i as int) =~= all);
        }
        if signatures.len() >= self.quorum_threshold {
            Ok(signatures)
        } else {
            let mut msg = "Insufficient witness signatures: ".to_owned();
            push_text(&mut msg, number_text(signatures.len() as u64).as_str());
            push_text(&mut msg, " < ");
            push_text(&mut msg, number_text(self.quorum_threshold as u64).as_str());
            Err(msg)
        }
    }
}

} // verus!
