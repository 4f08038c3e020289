//! The SHIP handshake of an EEBus client: the messages it sends and the one reply it checks.
use vstd::prelude::*;
use vstd::string::StringSliceAdditionalSpecFns;
use vstd::utf8::encode_utf8;

verus! {

/// The phase of a SHIP connection hello.
#[derive(Debug, Clone, Copy, Hash, PartialEq, Eq, Structural)]
pub enum ConnectionHelloPhaseType {
    Pending,
    Ready,
    Aborted,
}

/// The content of a SHIP connection hello.
#[derive(Debug)]
pub struct ConnectionHelloType {
    pub phase: Option<ConnectionHelloPhaseType>,
    pub waiting: Option<u32>,
    pub prolongation_request: Option<bool>,
}

/// A SHIP connection hello message.
#[derive(Debug)]
pub struct ConnectionHello {
    pub connection_hello: ConnectionHelloType,
}

impl Default for ConnectionHelloType {
    fn default() -> (r: ConnectionHelloType)
        ensures
            r.phase is None,
            r.waiting is None,
            r.prolongation_request is None,
    {
        ConnectionHelloType { phase: None, waiting: None, prolongation_request: None }
    }
}

impl Default for ConnectionHello {
    fn default() -> (r: ConnectionHello)
        ensures
            r.connection_hello.phase is None,
            r.connection_hello.waiting is None,
            r.connection_hello.prolongation_request is None,
    {
        ConnectionHello { connection_hello: ConnectionHelloType::default() }
    }
}

/// A step of the client's handshake: a message to send, a reply that must be exactly
/// the given bytes, or a reply taken as it comes.
pub enum ShipStep {
    Send(Seq<u8>),
    Expect(Seq<u8>),
    Receive,
}

/// A SHIP control message: type byte 1, then the JSON text in UTF-8.
pub open spec fn control_message(json: &str) -> Seq<u8> {
    seq![1u8] + json.spec_bytes()
}

/// The SHIP init message: message type "init" and a zero byte.
pub open spec fn init_message() -> Seq<u8> {
    seq![0u8, 0u8]
}

/// The client's side of the SHIP handshake, up to the exchange of access methods: init,
/// connection hello (ready, waiting 60 s), protocol handshake (announce, then select
/// version 1.0 with JSON-UTF8), PIN state (none) and access methods (MONITORING).
pub open spec fn ship_script() -> Seq<ShipStep> {
    seq![
        ShipStep::Send(init_message()),
        ShipStep::Expect(init_message()),
        ShipStep::Send(control_message("{\"connectionHello\":[{\"phase\":\"ready\"},{\"waiting\":60000}]}")),
        ShipStep::Receive,
        ShipStep::Send(control_message("{\"messageProtocolHandshake\":[{\"handshakeType\":\"announceMax\"},{\"version\":[{\"major\":1},{\"minor\":0}]},{\"formats\":[{\"format\":[\"JSON-UTF8\"]}]}]}")),
        ShipStep::Receive,
        ShipStep::Send(control_message("{\"messageProtocolHandshake\":[{\"handshakeType\":\"select\"},{\"version\":[{\"major\":1},{\"minor\":0}]},{\"formats\":[{\"format\":[\"JSON-UTF8\"]}]}]}")),
        ShipStep::Send(control_message("{\"connectionPinState\":[{\"pinState\":\"none\"}]}")),
        ShipStep::Receive,
        ShipStep::Send(control_message("{\"accessMethodsRequest\":[]}")),
        ShipStep::Receive,
        ShipStep::Send(control_message("{\"accessMethods\":[{\"id\":\"MONITORING\"}]}")),
        ShipStep::Receive,
    ]
}

/// What the client asks of the connection next.
#[derive(Debug)]
pub enum ShipAction {
    /// Send these bytes as a binary message and flush.
    Send(Vec<u8>),
    /// Read the next message.
    Receive,
    /// The handshake is through.
    Done,
    /// A reply was not what the handshake requires.
    Failed,
}

/// Action `a` is what step `k` of the handshake asks for (`Done` past its end).
pub open spec fn action_for(a: ShipAction, k: int) -> bool {
    if k >= ship_script().len() {
        a is Done
    } else {
        match ship_script()[k] {
            ShipStep::Send(m) => a matches ShipAction::Send(v) && v@ == m,
            _ => a is Receive,
        }
    }
}

/// The client's progress through the handshake: the step it is at.
#[derive(Debug)]
pub struct ShipClient {
    pub stage: usize,
}

fn control(json: &str) -> (r: Vec<u8>)
    ensures
        r@ == control_message(json),
{
    let b = json.as_bytes();
    let mut v: Vec<u8> = Vec::new();
    v.push(1u8);
    let mut i: usize = 0;
    while i < b.len()
        invariant
            i <= b@.len(),
            b@ == json.spec_bytes(),
            v@ == seq![1u8] + b@.take(i as int),
        decreases b@.len() - i,
    {
        v.push(b[i]);
        i = i + 1;
        assert(v@ =~= seq![1u8] + b@.take(i as int));
    }
    assert(b@.take(b@.len() as int) =~= b@);
    v
}

fn action_at(k: usize) -> (r: ShipAction)
    ensures
        action_for(r, k as int),
{
    let r = match k {
        0 => ShipAction::Send(vec![0u8, 0u8]),
        2 => ShipAction::Send(control("{\"connectionHello\":[{\"phase\":\"ready\"},{\"waiting\":60000}]}")),
        4 => ShipAction::Send(control("{\"messageProtocolHandshake\":[{\"handshakeType\":\"announceMax\"},{\"version\":[{\"major\":1},{\"minor\":0}]},{\"formats\":[{\"format\":[\"JSON-UTF8\"]}]}]}")),
        6 => ShipAction::Send(control("{\"messageProtocolHandshake\":[{\"handshakeType\":\"select\"},{\"version\":[{\"major\":1},{\"minor\":0}]},{\"formats\":[{\"format\":[\"JSON-UTF8\"]}]}]}")),
        7 => ShipAction::Send(control("{\"connectionPinState\":[{\"pinState\":\"none\"}]}")),
        9 => ShipAction::Send(control("{\"accessMethodsRequest\":[]}")),
        11 => ShipAction::Send(control("{\"accessMethods\":[{\"id\":\"MONITORING\"}]}")),
        1 | 3 | 5 | 8 | 10 | 12 => ShipAction::Receive,
        _ => ShipAction::Done,
    };
    proof {
        if k == 0 {
            assert(r matches ShipAction::Send(v) && v@ =~= init_message());
        }
    }
    r
}

impl ShipClient {
    /// A client at the start of the handshake, and what it asks for first.
    pub fn start() -> (r: (ShipClient, ShipAction))
        ensures
            r.0.stage == 0,
            action_for(r.1, 0),
    {
        (ShipClient { stage: 0 }, action_at(0))
    }

    /// Moves past the current step, given the message received for it (`None` after a send,
    /// or when a received message was not binary).
    pub fn next(&mut self, received: Option<Vec<u8>>) -> (r: ShipAction)
        requires
            old(self).stage < ship_script().len(),
        ensures
            match ship_script()[old(self).stage as int] {
                ShipStep::Expect(m) => if received matches Some(v) && v@ == m {
                    final(self).stage == old(self).stage + 1 && action_for(r, final(self).stage as int)
                } else {
                    final(self).stage == ship_script().len() && r is Failed
                },
                _ => final(self).stage == old(self).stage + 1 && action_for(r, final(self).stage as int),
            },
    {
        if self.stage == 1 {
            let ok = match &received {
                Some(v) => v.len() == 2 && v[0] == 0 && v[1] == 0,
                None => false,
            };
            proof {
                if received is Some && received->0@ == init_message() {
                    assert(received->0@[0] == 0 && received->0@[1] == 0);
                }
                if ok {
                    assert(received->0@ =~= init_message());
                }
            }
            if !ok {
                self.stage = 13;
                return ShipAction::Failed;
            }
        }
        self.stage = self.stage + 1;
        action_at(self.stage)
    }
}


/// The client's handshake, message by message: the init message and its expected echo; the
/// connection hello (phase ready, waiting 60000 ms); the protocol handshake announcing, then
/// selecting, version 1.0 with format JSON-UTF8; PIN state none; the access methods request;
/// the access methods (id MONITORING); each control message being byte 1 followed by the UTF-8
/// of its JSON text, and a reply taken after each of them but the select.
pub proof fn lemma_ship_messages()
    ensures
        ship_script().len() == 13,
        ship_script()[0] == ShipStep::Send(seq![0u8, 0u8]),
        ship_script()[1] == ShipStep::Expect(seq![0u8, 0u8]),
        ship_script()[2] == ShipStep::Send(seq![1u8] + encode_utf8("{\"connectionHello\":[{\"phase\":\"ready\"},{\"waiting\":60000}]}"@)),
        ship_script()[3] is Receive,
        ship_script()[4] == ShipStep::Send(seq![1u8] + encode_utf8("{\"messageProtocolHandshake\":[{\"handshakeType\":\"announceMax\"},{\"version\":[{\"major\":1},{\"minor\":0}]},{\"formats\":[{\"format\":[\"JSON-UTF8\"]}]}]}"@)),
        ship_script()[5] is Receive,
        ship_script()[6] == ShipStep::Send(seq![1u8] + encode_utf8("{\"messageProtocolHandshake\":[{\"handshakeType\":\"select\"},{\"version\":[{\"major\":1},{\"minor\":0}]},{\"formats\":[{\"format\":[\"JSON-UTF8\"]}]}]}"@)),
        ship_script()[7] == ShipStep::Send(seq![1u8] + encode_utf8("{\"connectionPinState\":[{\"pinState\":\"none\"}]}"@)),
        ship_script()[8] is Receive,
        ship_script()[9] == ShipStep::Send(seq![1u8] + encode_utf8("{\"accessMethodsRequest\":[]}"@)),
        ship_script()[10] is Receive,
        ship_script()[11] == ShipStep::Send(seq![1u8] + encode_utf8("{\"accessMethods\":[{\"id\":\"MONITORING\"}]}"@)),
        ship_script()[12] is Receive,
{
}

} // verus!
