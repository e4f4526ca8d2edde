use rccn_usr::comm::config::{
    Config, ConfigError, FrameConfig, FrameKind, FrameOutConfig, Frames, ValidationError,
};
use rccn_usr::config::VirtualChannel;
use rccn_usr::transport::config::{
    Ros2RxTransport, RxTransport, TxTransport, UdpRxTransport, UdpTxTransport, ZenohRxTransport,
};

fn vc(id: u8, rx: Option<RxTransport>) -> VirtualChannel {
    VirtualChannel {
        id,
        name: format!("vc{id}"),
        splitter: None,
        tx_transport: Some(TxTransport::Udp(UdpTxTransport { send: "127.0.0.1:7000".to_string() })),
        rx_transport: rx,
    }
}

fn config(channels: Vec<VirtualChannel>) -> Config {
    Config {
        frames: Frames {
            spacecraft_id: 0x100,
            input: FrameConfig {
                frame_kind: FrameKind::Tc,
                transport: RxTransport::Udp(UdpRxTransport { listen: "0.0.0.0:6000".to_string() }),
            },
            out: FrameOutConfig {
                frame_kind: FrameKind::Uslp,
                transport: TxTransport::Udp(UdpTxTransport { send: "127.0.0.1:6001".to_string() }),
            },
        },
        virtual_channels: channels,
    }
}

fn sourceless() -> RxTransport {
    RxTransport::Ros2(Ros2RxTransport { topic_sub: None, action_srv: None })
}

#[test]
fn valid_configurations_pass() {
    assert_eq!(config(vec![]).validate(), Ok(()));
    let rx = RxTransport::Ros2(Ros2RxTransport { topic_sub: None, action_srv: Some("a".to_string()) });
    let z = RxTransport::Zenoh(ZenohRxTransport { key_sub: "vc/a/rx".to_string() });
    assert_eq!(config(vec![vc(0, None), vc(255, Some(rx)), vc(7, Some(z))]).validate(), Ok(()));
}

#[test]
fn duplicate_vc_ids_are_a_validation_error() {
    let c = config(vec![vc(0, None), vc(1, None), vc(2, None), vc(1, None), vc(0, None)]);
    assert_eq!(
        c.validate(),
        Err(ConfigError::Validation(ValidationError::DuplicateVirtualChannelId(1)))
    );
    let c = config(vec![vc(9, None), vc(9, None)]);
    assert_eq!(
        c.validate(),
        Err(ConfigError::Validation(ValidationError::DuplicateVirtualChannelId(9)))
    );
}

#[test]
fn frame_kinds_are_looked_at_first() {
    let mut c = config(vec![vc(1, None), vc(1, None)]);
    c.frames.out.frame_kind = FrameKind::Tc;
    assert_eq!(c.validate(), Err(ConfigError::Validation(ValidationError::OutputFrameKind)));
    c.frames.input.frame_kind = FrameKind::Uslp;
    assert_eq!(c.validate(), Err(ConfigError::Validation(ValidationError::InputFrameKind)));
}

#[test]
fn topic_based_rx_needs_a_source() {
    let mut c = config(vec![vc(1, None), vc(2, Some(sourceless())), vc(1, None)]);
    assert_eq!(c.validate(), Err(ConfigError::Validation(ValidationError::RxWithoutSource(2))));
    c.frames.input.transport = sourceless();
    assert_eq!(c.validate(), Err(ConfigError::Validation(ValidationError::InputWithoutSource)));
    // A duplicate that comes first is reported first.
    let c = config(vec![vc(1, None), vc(1, Some(sourceless()))]);
    assert_eq!(
        c.validate(),
        Err(ConfigError::Validation(ValidationError::DuplicateVirtualChannelId(1)))
    );
}

#[test]
fn config_file_is_the_first_candidate_that_exists() {
    let first = "etc/config.yaml";
    let second = "install/rccn_usr_comm/share/rccn_usr_comm/etc/config.yaml";
    assert_eq!(Config::find_config_file(|_| true), Ok(first.to_string()));
    assert_eq!(Config::find_config_file(|p| p == second), Ok(second.to_string()));
    assert_eq!(Config::find_config_file(|p| p == first), Ok(first.to_string()));
    assert_eq!(Config::find_config_file(|_| false), Err(ConfigError::ConfigNotFound));
}
