//! The configuration of the frame links and the virtual channels, and the rules it
//! has to meet.

use crate::config::VirtualChannel;
use crate::transport::{RxTransport, TxTransport};
use crate::types::VcId;
use std::collections::HashSet;
use vstd::prelude::*;

verus! {

/// The rule that a configuration breaks.
#[derive(Debug, Clone, Copy, PartialEq, Eq, Structural)]
pub enum ValidationError {
    /// Incoming frames must be TC frames.
    InputFrameKind,
    /// Outgoing frames must be USLP frames.
    OutputFrameKind,
    /// The incoming frame link is topic-based and names neither a subscription nor
    /// an action server.
    InputWithoutSource,
    /// Two virtual channels have this number.
    DuplicateVirtualChannelId(VcId),
    /// The incoming binding of this virtual channel is topic-based and names
    /// neither a subscription nor an action server.
    RxWithoutSource(VcId),
}

/// Why there is no configuration.
#[derive(Debug, Clone, Copy, PartialEq, Eq, Structural)]
pub enum ConfigError {
    Validation(ValidationError),
    ConfigNotFound,
}

/// The kind of a transfer frame.
#[derive(Debug, Clone, Copy, PartialEq, Eq, Structural)]
pub enum FrameKind {
    Tc,
    Uslp,
}

/// The link that frames come in on.
#[derive(Debug, Clone, PartialEq)]
pub struct FrameConfig {
    pub frame_kind: FrameKind,
    pub transport: RxTransport,
}

/// The link that frames go out on.
#[derive(Debug, Clone, PartialEq)]
pub struct FrameOutConfig {
    pub frame_kind: FrameKind,
    pub transport: TxTransport,
}

/// The two frame links and the spacecraft they serve.
#[derive(Debug, Clone, PartialEq)]
pub struct Frames {
    pub spacecraft_id: u16,
    pub input: FrameConfig,
    pub out: FrameOutConfig,
}

#[derive(Debug, Clone)]
pub struct Config {
    pub frames: Frames,
    pub virtual_channels: Vec<VirtualChannel>,
}

/// Whether the virtual channel at place `j` has the number of an earlier one.
pub open spec fn repeats_id(channels: Seq<VirtualChannel>, j: int) -> bool {
    exists|i: int| 0 <= i < j && (#[trigger] channels[i]).id == channels[j].id
}

/// The rule that the virtual channel at place `j` breaks, given those before it.
pub open spec fn channel_violation(channels: Seq<VirtualChannel>, j: int) -> Option<
    ValidationError,
> {
    if repeats_id(channels, j) {
        Some(ValidationError::DuplicateVirtualChannelId(channels[j].id))
    } else if channels[j].rx_transport matches Some(rx) && !rx.bindable() {
        Some(ValidationError::RxWithoutSource(channels[j].id))
    } else {
        None
    }
}

/// The first rule that a virtual channel from place `j` on breaks.
pub open spec fn first_channel_violation(channels: Seq<VirtualChannel>, j: int) -> Option<
    ValidationError,
>
    decreases channels.len() - j,
{
    if j < 0 || j >= channels.len() {
        None
    } else {
        match channel_violation(channels, j) {
            Some(e) => Some(e),
            None => first_channel_violation(channels, j + 1),
        }
    }
}

/// Whether two virtual channels have the same number.
pub open spec fn has_duplicate_ids(channels: Seq<VirtualChannel>) -> bool {
    exists|i: int, j: int|
        0 <= i < j < channels.len() && (#[trigger] channels[i]).id == (#[trigger] channels[j]).id
}

/// The place where the configuration file is looked for first.
pub const FIRST_CANDIDATE: &'static str = "etc/config.yaml";

/// The place where the configuration file is looked for next.
pub const SECOND_CANDIDATE: &'static str =
    "install/rccn_usr_comm/share/rccn_usr_comm/etc/config.yaml";

impl Config {
    /// The first rule that the configuration breaks: the kinds of the frame links
    /// are looked at first, then the transport of the incoming link, then the
    /// virtual channels in their order.
    pub open spec fn violation(&self) -> Option<ValidationError> {
        if self.frames.input.frame_kind != FrameKind::Tc {
            Some(ValidationError::InputFrameKind)
        } else if self.frames.out.frame_kind != FrameKind::Uslp {
            Some(ValidationError::OutputFrameKind)
        } else if !self.frames.input.transport.bindable() {
            Some(ValidationError::InputWithoutSource)
        } else {
            first_channel_violation(self.virtual_channels@, 0)
        }
    }

    /// Picks the configuration file: the first of the two candidates that
    /// `is_file` holds of.
    pub fn find_config_file<F: Fn(&str) -> bool>(is_file: F) -> (r: Result<String, ConfigError>)
        requires
            forall|path: &str| is_file.requires((path,)),
        ensures
            match r {
                Ok(path) => {
                    ||| path@ == FIRST_CANDIDATE@ && is_file.ensures((FIRST_CANDIDATE,), true)
                    ||| path@ == SECOND_CANDIDATE@ && is_file.ensures((FIRST_CANDIDATE,), false)
                        && is_file.ensures((SECOND_CANDIDATE,), true)
                },
                Err(e) => {
                    &&& e == ConfigError::ConfigNotFound
                    &&& is_file.ensures((FIRST_CANDIDATE,), false)
                    &&& is_file.ensures((SECOND_CANDIDATE,), false)
                },
            },
    {
        if is_file(FIRST_CANDIDATE) {
            return Ok(FIRST_CANDIDATE.to_owned());
        }
        if is_file(SECOND_CANDIDATE) {
            return Ok(SECOND_CANDIDATE.to_owned());
        }
        Err(ConfigError::ConfigNotFound)
    }

    /// Holds the configuration to its rules and names the first one it breaks.
    #[verifier::loop_isolation(false)]
    pub fn validate(&self) -> (r: Result<(), ConfigError>)
        ensures
            match self.violation() {
                Some(e) => r == Err::<(), ConfigError>(ConfigError::Validation(e)),
                None => r.is_ok(),
            },
    {
        broadcast use vstd::std_specs::hash::group_hash_axioms;

        if !frame_kind_is(self.frames.input.frame_kind, FrameKind::Tc) {
            return Err(ConfigError::Validation(ValidationError::InputFrameKind));
        }
        if !frame_kind_is(self.frames.out.frame_kind, FrameKind::Uslp) {
            return Err(ConfigError::Validation(ValidationError::OutputFrameKind));
        }
        if !self.frames.input.transport.is_bindable() {
            return Err(ConfigError::Validation(ValidationError::InputWithoutSource));
        }
        let mut seen_ids: HashSet<VcId> = HashSet::new();
        let ghost channels = self.virtual_channels@;
        let mut j: usize = 0;
        while j < self.virtual_channels.len()
            invariant
                j <= channels.len(),
                channels == self.virtual_channels@,
                forall|id: VcId|
                    #[trigger] seen_ids@.contains(id) <==> exists|i: int|
                        0 <= i < j && (#[trigger] channels[i]).id == id,
                first_channel_violation(channels, 0) == first_channel_violation(channels, j as int),
            decreases channels.len() - j,
        {
            let vc = &self.virtual_channels[j];
            let id = vc.id;
            let ghost before = seen_ids@;
            if !seen_ids.insert(id) {
                assert(before.contains(id));
                assert(repeats_id(channels, j as int));
                return Err(
                    ConfigError::Validation(ValidationError::DuplicateVirtualChannelId(id)),
                );
            }
            assert(!repeats_id(channels, j as int)) by {
                if repeats_id(channels, j as int) {
                    let i = choose|i: int|
                        0 <= i < j && (#[trigger] channels[i]).id == channels[j as int].id;
                    assert(before.contains(id));
                }
            }
            let bound = match &vc.rx_transport {
                Some(rx) => rx.is_bindable(),
                None => true,
            };
            if !bound {
                return Err(ConfigError::Validation(ValidationError::RxWithoutSource(id)));
            }
            proof {
                assert forall|other: VcId| #[trigger]
                    seen_ids@.contains(other) <==> exists|i: int|
                        0 <= i < j + 1 && (#[trigger] channels[i]).id == other by {
                    if other == id {
                        assert(channels[j as int].id == other);
                    } else if before.contains(other) {
                        let i = choose|i: int| 0 <= i < j && (#[trigger] channels[i]).id == other;
                        assert(0 <= i < j + 1 && channels[i].id == other);
                    } else if exists|i: int| 0 <= i < j + 1 && (#[trigger] channels[i]).id == other {
                        let i = choose|i: int|
                            0 <= i < j + 1 && (#[trigger] channels[i]).id == other;
                        assert(i != j);
                        assert(0 <= i < j && channels[i].id == other);
                    }
                }
            }
            j = j + 1;
        }
        Ok(())
    }
}

/// Whether two frame kinds are the same.
fn frame_kind_is(kind: FrameKind, other: FrameKind) -> (same: bool)
    ensures
        same == (kind == other),
{
    match (kind, other) {
        (FrameKind::Tc, FrameKind::Tc) => true,
        (FrameKind::Uslp, FrameKind::Uslp) => true,
        _ => false,
    }
}

proof fn lemma_violation_found(channels: Seq<VirtualChannel>, from: int, at: int)
    requires
        0 <= from <= at < channels.len(),
        channel_violation(channels, at).is_some(),
    ensures
        first_channel_violation(channels, from).is_some(),
    decreases at - from,
{
    if from < at && channel_violation(channels, from).is_none() {
        lemma_violation_found(channels, from + 1, at);
    }
}

/// A configuration in which two virtual channels have the same number is not
/// valid.
pub proof fn lemma_duplicate_ids_rejected(config: Config)
    requires
        has_duplicate_ids(config.virtual_channels@),
    ensures
        config.violation().is_some(),
{
    let channels = config.virtual_channels@;
    let (i, j) = choose|i: int, j: int|
        0 <= i < j < channels.len() && (#[trigger] channels[i]).id == (#[trigger] channels[j]).id;
    assert(repeats_id(channels, j));
    lemma_violation_found(channels, 0, j);
}

} // verus!
