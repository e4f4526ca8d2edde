//! The descriptors of transports in a configuration.

use vstd::prelude::*;
use zenoh::key_expr::OwnedKeyExpr;

verus! {

/// Sends datagrams to the socket address `send`.
#[derive(Debug, Clone, PartialEq)]
pub struct UdpTxTransport {
    pub send: String,
}

/// Receives datagrams on the socket address `listen`.
#[derive(Debug, Clone, PartialEq)]
pub struct UdpRxTransport {
    pub listen: String,
}

/// Publishes on the topic `topic_pub`.
#[derive(Debug, Clone, PartialEq)]
pub struct Ros2TxTransport {
    pub topic_pub: String,
}

/// Receives from a subscription to `topic_sub` or from the action server
/// `action_srv`.
#[derive(Debug, Clone, PartialEq)]
pub struct Ros2RxTransport {
    pub topic_sub: Option<String>,
    pub action_srv: Option<String>,
}

/// Publishes under the key expression `key_pub`.
#[derive(Debug, Clone, PartialEq)]
pub struct ZenohTxTransport {
    pub key_pub: String,
}

/// Subscribes to the key expression `key_sub`.
#[derive(Debug, Clone, PartialEq)]
pub struct ZenohRxTransport {
    pub key_sub: String,
}

/// Where the bytes of a channel are sent.
#[derive(Debug, Clone, PartialEq)]
pub enum TxTransport {
    Udp(UdpTxTransport),
    Ros2(Ros2TxTransport),
    Zenoh(ZenohTxTransport),
}

/// Where the bytes of a channel come from.
#[derive(Debug, Clone, PartialEq)]
pub enum RxTransport {
    Udp(UdpRxTransport),
    Ros2(Ros2RxTransport),
    Zenoh(ZenohRxTransport),
}

/// A text that is no key expression.
#[derive(Debug, Clone, Copy, PartialEq, Eq, Structural)]
pub struct InvalidKeyExpr {}

/// Whether `OwnedKeyExpr::new` takes the text for a key expression.
pub uninterp spec fn key_expr_accepted(text: Seq<char>) -> bool;

/// Asks `OwnedKeyExpr::new` whether the text is a key expression in canon form.
#[verifier::external_body]
fn is_key_expr(text: &str) -> (ok: bool)
    ensures
        ok == key_expr_accepted(text@),
{
    OwnedKeyExpr::new(text).is_ok()
}

impl Ros2RxTransport {
    /// Whether the transport names a subscription or an action server.
    pub open spec fn has_source(&self) -> bool {
        self.topic_sub.is_some() || self.action_srv.is_some()
    }
}

impl RxTransport {
    /// Whether the transport can be bound: a topic-based one names a subscription
    /// or an action server.
    pub open spec fn bindable(&self) -> bool {
        match self {
            RxTransport::Ros2(t) => t.has_source(),
            _ => true,
        }
    }

    /// Whether the transport can be bound.
    pub fn is_bindable(&self) -> (b: bool)
        ensures
            b == self.bindable(),
    {
        match self {
            RxTransport::Ros2(t) => t.topic_sub.is_some() || t.action_srv.is_some(),
            _ => true,
        }
    }
}

impl ZenohTxTransport {
    /// The transport that publishes under `value`, where that is a key expression.
    pub fn try_from(value: &str) -> (r: Result<Self, InvalidKeyExpr>)
        ensures
            r.is_ok() <==> key_expr_accepted(value@),
            r matches Ok(t) ==> t.key_pub@ == value@,
    {
        if is_key_expr(value) {
            Ok(ZenohTxTransport { key_pub: value.to_owned() })
        } else {
            Err(InvalidKeyExpr {  })
        }
    }
}

impl ZenohRxTransport {
    /// The transport that subscribes to `value`, where that is a key expression.
    pub fn try_from(value: &str) -> (r: Result<Self, InvalidKeyExpr>)
        ensures
            r.is_ok() <==> key_expr_accepted(value@),
            r matches Ok(t) ==> t.key_sub@ == value@,
    {
        if is_key_expr(value) {
            Ok(ZenohRxTransport { key_sub: value.to_owned() })
        } else {
            Err(InvalidKeyExpr {  })
        }
    }
}

} // verus!
