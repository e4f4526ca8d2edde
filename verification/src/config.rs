//! The description of a virtual channel in a configuration.

use crate::transport::config::{
    key_expr_accepted,
    InvalidKeyExpr,
    ZenohRxTransport,
    ZenohTxTransport,
};
use crate::transport::{RxTransport, TxTransport};
use crate::types::VcId;
use vstd::prelude::*;

verus! {

/// A virtual channel: its number, its name, and the transports it is bound to in
/// either direction.
#[derive(Debug, Clone)]
pub struct VirtualChannel {
    pub id: VcId,
    pub name: String,
    pub splitter: Option<String>,
    pub tx_transport: Option<TxTransport>,
    pub rx_transport: Option<RxTransport>,
}

/// The key expression of a virtual channel's topic in one direction.
pub open spec fn topic_of(name: Seq<char>, direction: Seq<char>) -> Seq<char> {
    "vc/"@ + name + "/"@ + direction
}

/// Formats the topic of a virtual channel with `format!`: the texts `vc/`, the
/// name, a slash and the direction, one after the other.
#[verifier::external_body]
fn format_topic(name: &str, direction: &str) -> (topic: String)
    ensures
        topic@ == topic_of(name@, direction@),
{
    format!("vc/{name}/{direction}")
}

impl VirtualChannel {
    /// The virtual channel `id` that publishes under `vc/<name>/tx` and subscribes
    /// to `vc/<name>/rx`, where both are key expressions.
    pub fn on_z_topic(id: VcId, name: &str) -> (r: Result<Self, InvalidKeyExpr>)
        ensures
            r.is_ok() <==> key_expr_accepted(topic_of(name@, "tx"@)) && key_expr_accepted(
                topic_of(name@, "rx"@),
            ),
            r matches Ok(vc) ==> {
                &&& vc.id == id
                &&& vc.name@ == name@
                &&& vc.splitter.is_none()
                &&& vc.tx_transport matches Some(TxTransport::Zenoh(tx)) && tx.key_pub@ == topic_of(
                    name@,
                    "tx"@,
                )
                &&& vc.rx_transport matches Some(RxTransport::Zenoh(rx)) && rx.key_sub@ == topic_of(
                    name@,
                    "rx"@,
                )
            },
    {
        let tx_topic = format_topic(name, "tx");
        let rx_topic = format_topic(name, "rx");
        let tx = match ZenohTxTransport::try_from(tx_topic.as_str()) {
            Ok(t) => t,
            Err(e) => {
                return Err(e);
            },
        };
        let rx = match ZenohRxTransport::try_from(rx_topic.as_str()) {
            Ok(t) => t,
            Err(e) => {
                return Err(e);
            },
        };
        Ok(
            VirtualChannel {
                id,
                name: name.to_owned(),
                splitter: None,
                tx_transport: Some(TxTransport::Zenoh(tx)),
                rx_transport: Some(RxTransport::Zenoh(rx)),
            },
        )
    }
}

} // verus!
