//! The role state machine of one ring node, and the algebra of the whole
//! ring.
//!
//! A node is configured as the master or as a relay and moves through
//! `Idle -> Listening -> Done`.  The master's `start` generates a fresh key
//! pair, encrypts its initial term and hands back the first message; a
//! relay's `start` only opens its listening phase.  One received stream
//! later, `handle_wire` decodes and performs the role's single step: a
//! relay folds its scalar pair into the accumulator and forwards it under
//! the unmodified key, the master decrypts and reports.  The transport
//! itself stays outside; callers move the returned messages between nodes.
//!
//! `fold_step` and `ring_result` state the intended value of the whole
//! computation, and the lemmas at the end tie the per-hop contracts to it.

use vstd::arithmetic::div_mod::{lemma_add_mod_noop_right, lemma_mul_mod_noop_left};
use vstd::arithmetic::power2::pow2;
use vstd::prelude::*;

use crate::codec::{decode, decode_spec, DecodeError, WireMessage};
use crate::hex::{hex_value, lower_hex};
use crate::scheme::{
    dec_of, encrypt_raw, hom_add_raw, hom_mul_raw, in_cspace, key_genuine, key_parse_ok, mul_big,
    plain_modulus, KeyPair, Plaintext,
};

verus! {

#[derive(Clone, Copy, Debug, PartialEq, Eq, Structural)]
pub enum Role {
    Master,
    Relay,
}

/// One node's immutable configuration: its role, the address it listens
/// on, the address of its successor, and its local scalar pair.
pub struct NodeConfig {
    pub role: Role,
    pub listen: String,
    pub next: String,
    pub a: Plaintext,
    pub m: Plaintext,
}

impl NodeConfig {
    pub open spec fn wf(&self) -> bool {
        self.a.wf() && self.m.wf()
    }

    /// Runtime counterpart of `wf`.
    pub fn check(&self) -> (r: bool)
        ensures
            r == self.wf(),
    {
        self.a.check() && self.m.check()
    }
}

/// Where a node stands: not yet started, waiting for its one inbound
/// message (the master retaining its key pair there), or finished.  The
/// secret key exists only inside a master's `Listening` state and is
/// dropped on the way to `Done`.
pub enum NodeState {
    Idle,
    Listening { kp: Option<KeyPair> },
    Done,
}

/// What a node asks its caller to do after a step: send a message to the
/// successor, or report the final plaintext.
pub enum Action {
    Forward(WireMessage),
    Report(Plaintext),
}

pub struct Node {
    pub cfg: NodeConfig,
    pub state: NodeState,
}

impl Node {
    /// A relay never holds a key pair; a listening master always does.
    pub open spec fn wf(&self) -> bool {
        self.cfg.wf() && match self.state {
            NodeState::Listening { kp } => match kp {
                Some(_) => self.cfg.role == Role::Master,
                None => self.cfg.role == Role::Relay,
            },
            _ => true,
        }
    }

    pub fn new(cfg: NodeConfig) -> (r: Node)
        requires
            cfg.wf(),
        ensures
            r.wf(),
            r.cfg == cfg,
            r.state is Idle,
    {
        Node { cfg, state: NodeState::Idle }
    }

    /// Opens the node's listening phase.  The master first computes
    /// `p0 = a * m`, encrypts it under a freshly generated key of the
    /// requested width, and returns the initial message for its successor;
    /// a relay sends nothing before its receive.
    pub fn start(&mut self, key_bits: usize) -> (r: Option<WireMessage>)
        requires
            old(self).wf(),
            old(self).state is Idle,
            64 <= key_bits,
        ensures
            final(self).wf(),
            final(self).cfg == old(self).cfg,
            final(self).state is Listening,
            old(self).cfg.role == Role::Relay ==> r is None,
            old(self).cfg.role == Role::Master ==> (r matches Some(msg) && msg.wf() && lower_hex(
                msg.c@,
            ) && (final(self).state matches NodeState::Listening { kp: Some(k) } && msg.key@
                == k.pk() && key_parse_ok(k.pk()) && key_genuine(k.pk()) && plain_modulus(k.pk())
                > 1 && plain_modulus(k.pk()) >= pow2((2 * (key_bits / 2) - 2) as nat) && in_cspace(
                k.pk(),
                msg.c.value(),
            ) && dec_of(k.pk(), msg.c.value()) == (old(self).cfg.a.value() * old(self).cfg.m.value())
                % plain_modulus(k.pk()))),
    {
        match self.cfg.role {
            Role::Relay => {
                self.state = NodeState::Listening { kp: None };
                None
            },
            Role::Master => {
                let kp = KeyPair::generate(key_bits);
                let ek = kp.public_key();
                let p0 = mul_big(&self.cfg.a, &self.cfg.m);
                let c0 = encrypt_raw(&ek, &p0);
                self.state = NodeState::Listening { kp: Some(kp) };
                Some(WireMessage { key: ek, c: c0 })
            },
        }
    }

    /// The role's single step on the one received message.  A relay adds
    /// its `a` homomorphically, then multiplies by its `m` — addition
    /// strictly before multiplication — and forwards the result under the
    /// key it received, unmodified.  The master decrypts with the key pair
    /// it retained and reports the plaintext.
    pub fn on_message(&mut self, msg: WireMessage) -> (r: Action)
        requires
            old(self).wf(),
            old(self).state is Listening,
            msg.wf(),
            key_parse_ok(msg.key@),
            plain_modulus(msg.key@) > 1,
        ensures
            final(self).wf(),
            final(self).cfg == old(self).cfg,
            final(self).state is Done,
            old(self).cfg.role == Role::Relay ==> (r matches Action::Forward(out) && out.wf()
                && out.key@ == msg.key@ && lower_hex(out.c@) && (key_genuine(msg.key@)
                && in_cspace(msg.key@, msg.c.value()) ==> in_cspace(msg.key@, out.c.value())
                && dec_of(msg.key@, out.c.value()) == fold_step(
                dec_of(msg.key@, msg.c.value()),
                old(self).cfg.a.value(),
                old(self).cfg.m.value(),
                plain_modulus(msg.key@),
            ))),
            old(self).cfg.role == Role::Master ==> (r matches Action::Report(p) && p.wf() && (old(self).state matches NodeState::Listening { kp: Some(k) } ==> p.value() == dec_of(
                k.pk(),
                msg.c.value(),
            ) && p.value() < plain_modulus(k.pk()))),
    {
        let ghost md = plain_modulus(msg.key@) as int;
        let r = match &self.state {
            NodeState::Listening { kp: Some(k) } => Action::Report(k.decrypt(&msg.c)),
            _ => {
                let e = encrypt_raw(&msg.key, &self.cfg.a);
                let c_mid = hom_add_raw(&msg.key, &msg.c, &e);
                let c_out = hom_mul_raw(&msg.key, &c_mid, &self.cfg.m);
                proof {
                    if key_genuine(msg.key@) && in_cspace(msg.key@, msg.c.value()) {
                        let c_in = dec_of(msg.key@, msg.c.value()) as int;
                        let a = self.cfg.a.value() as int;
                        let m = self.cfg.m.value() as int;
                        lemma_add_mod_noop_right(c_in, a, md);
                        lemma_mul_mod_noop_left(c_in + a, m, md);
                    }
                }
                Action::Forward(WireMessage { key: msg.key, c: c_out })
            },
        };
        self.state = NodeState::Done;
        r
    }

    /// Decodes one received stream and performs the role's step.  A stream
    /// that is not a message leaves the node finished with the decoder's
    /// error; the ring has no retry.
    pub fn handle_wire(&mut self, data: &[u8]) -> (r: Result<Action, DecodeError>)
        requires
            old(self).wf(),
            old(self).state is Listening,
        ensures
            final(self).wf(),
            final(self).cfg == old(self).cfg,
            final(self).state is Done,
            match r {
                Err(e) => decode_spec(data@) == Err::<(Seq<u8>, Seq<u8>), DecodeError>(e),
                Ok(act) => decode_spec(data@) matches Ok(hk) && match act {
                    Action::Forward(out) => old(self).cfg.role == Role::Relay && out.wf()
                        && out.key@ == hk.1 && lower_hex(out.c@) && (key_genuine(hk.1)
                        && in_cspace(hk.1, hex_value(hk.0)) ==> in_cspace(hk.1, out.c.value())
                        && dec_of(hk.1, out.c.value()) == fold_step(
                        dec_of(hk.1, hex_value(hk.0)),
                        old(self).cfg.a.value(),
                        old(self).cfg.m.value(),
                        plain_modulus(hk.1),
                    )),
                    Action::Report(p) => old(self).cfg.role == Role::Master && p.wf() && (old(self).state matches NodeState::Listening { kp: Some(k) } ==> p.value() == dec_of(
                        k.pk(),
                        hex_value(hk.0),
                    ) && p.value() < plain_modulus(k.pk())),
                },
            },
    {
        match decode(data) {
            Err(e) => {
                self.state = NodeState::Done;
                Err(e)
            },
            Ok(msg) => Ok(self.on_message(msg)),
        }
    }
}

/// One fold of the ring: what one relay's hop does to the running value.
pub open spec fn fold_step(p: nat, a: nat, m: nat, md: nat) -> nat {
    ((p + a) * m) % md
}

/// The value the ring computes: `p0` reduced by the modulus, then every
/// relay's scalar pair folded in order.
pub open spec fn ring_result(p0: nat, relays: Seq<(nat, nat)>, md: nat) -> nat
    decreases relays.len(),
{
    if relays.len() == 0 {
        p0 % md
    } else {
        fold_step(
            ring_result(p0, relays.drop_last(), md),
            relays.last().0,
            relays.last().1,
            md,
        )
    }
}

/// General ring recurrence: when the accumulator starts at `p0` reduced by
/// the modulus and every hop applies its fold in ring order, the value that
/// returns to the master is exactly `ring_result`.  `ps` lists the
/// plaintext values of the accumulator, hop by hop.
pub proof fn lemma_ring_recurrence(p0: nat, relays: Seq<(nat, nat)>, ps: Seq<nat>, md: nat)
    requires
        ps.len() == relays.len() + 1,
        ps[0] == p0 % md,
        forall|k: int|
            0 <= k < relays.len() ==> ps[k + 1] == fold_step(
                #[trigger] ps[k],
                relays[k].0,
                relays[k].1,
                md,
            ),
    ensures
        ps.last() == ring_result(p0, relays, md),
    decreases relays.len(),
{
    if relays.len() == 0 {
        assert(ps.last() == ps[0]);
    } else {
        let n = relays.len() as int;
        assert forall|k: int| 0 <= k < relays.drop_last().len() implies ps.drop_last()[k + 1]
            == fold_step(
            #[trigger] ps.drop_last()[k],
            relays.drop_last()[k].0,
            relays.drop_last()[k].1,
            md,
        ) by {
            assert(ps[k + 1] == fold_step(ps[k], relays[k].0, relays[k].1, md));
        }
        lemma_ring_recurrence(p0, relays.drop_last(), ps.drop_last(), md);
        assert(ps.drop_last().last() == ps[n - 1]);
        assert(ps[n] == fold_step(ps[n - 1], relays[n - 1].0, relays[n - 1].1, md));
        assert(relays.last() == relays[n - 1]);
    }
}

/// Round trip with a single relay, in the shape of the node contracts:
/// when the master's first message decrypts to `(a0 * m0) % md` and the one
/// relay's hop folds `(a1, m1)` into it, what comes back decrypts to
/// `((a0 * m0) + a1) * m1`, reduced by the modulus.
pub proof fn lemma_two_node_round_trip(
    a0: nat,
    m0: nat,
    a1: nat,
    m1: nat,
    md: nat,
    p0: nat,
    p1: nat,
)
    requires
        md > 0,
        p0 == (a0 * m0) % md,
        p1 == fold_step(p0, a1, m1, md),
    ensures
        p1 == ((a0 * m0 + a1) * m1) % md,
{
    let relays = seq![(a1, m1)];
    assert(relays.drop_last() =~= Seq::<(nat, nat)>::empty());
    assert(ring_result(a0 * m0, relays.drop_last(), md) == (a0 * m0) % md);
    assert(relays.last() == (a1, m1));
    assert(ring_result(a0 * m0, relays, md) == fold_step(p0, a1, m1, md));
    lemma_single_relay(a0, m0, a1, m1, md);
}

/// Round trip with a single relay: the ring's value collapses to the
/// closed form `((a0 * m0) + a1) * m1`, reduced by the modulus.
pub proof fn lemma_single_relay(a0: nat, m0: nat, a1: nat, m1: nat, md: nat)
    requires
        md > 0,
    ensures
        ring_result(a0 * m0, seq![(a1, m1)], md) == ((a0 * m0 + a1) * m1) % md,
{
    let relays = seq![(a1, m1)];
    assert(relays.drop_last() =~= Seq::<(nat, nat)>::empty());
    assert(ring_result(a0 * m0, relays.drop_last(), md) == (a0 * m0) % md);
    let x = (a0 * m0) as int;
    let y = x % md as int;
    lemma_add_mod_noop_right(a1 as int, x, md as int);
    lemma_mul_mod_noop_left(y + a1, m1 as int, md as int);
    lemma_mul_mod_noop_left(x + a1, m1 as int, md as int);
    assert((y + a1) % (md as int) == (x + a1) % (md as int));
    assert(((y + a1) * m1) % (md as int) == ((x + a1) * m1) % (md as int));
}

} // verus!
