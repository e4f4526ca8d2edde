//! The frame processor. Inbound it gathers the bytes of the incoming link, has a TC
//! transfer frame decoded from them, and hands the frame's data to the virtual
//! channel that the frame names. Outbound it describes the USLP transfer frame that
//! carries the data of a virtual channel.

use crate::comm::config::Config;
use crate::types::{copy_bytes, Sender, VcId, VirtualChannelTxMap};
use vstd::prelude::*;

verus! {

/// The most bytes that are gathered while a frame is incomplete.
pub const FRAME_PROCESSING_BUFFER_SIZE: usize = 8096;

/// The version number of outgoing frames.
pub const USLP_VERSION: u8 = 12;

/// The spacecraft identifier of outgoing frames.
pub const USLP_SPACECRAFT_ID: u16 = 0xAB;

/// The length of outgoing frames.
pub const USLP_FRAME_LENGTH: u16 = 512;

/// Why a frame was not routed.
#[derive(Debug, Clone, Copy, PartialEq, Eq, Structural)]
pub enum FrameProcessingError {
    /// The frame is meant for another spacecraft.
    UnknownSpacecraft(u16),
    /// The frame names a virtual channel that has no outgoing binding.
    UnknownVirtualChannel(VcId),
}

/// What the processor reads of a TC transfer frame.
#[derive(Debug)]
pub struct TcTransferFrame {
    pub spacecraft_id: u16,
    pub vc_id: VcId,
    pub data_field: Vec<u8>,
}

/// Data on its way to a virtual channel.
#[derive(Debug)]
pub struct Delivery {
    pub vc_id: VcId,
    /// The end of the virtual channel's byte channel to write to.
    pub to: Sender,
    pub data: Vec<u8>,
}

/// What became of the bytes that the processor was handed.
#[derive(Debug)]
pub enum FrameEvent {
    /// The bytes did not fit with those gathered before; all of them were dropped.
    DecoderReset,
    /// The bytes were gathered and do not yet make a frame.
    Incomplete,
    /// A frame was decoded and its data is to be delivered.
    Delivered(Delivery),
    /// A frame was decoded and dropped.
    Dropped(FrameProcessingError),
}

/// The description of an outgoing USLP transfer frame.
#[derive(Debug)]
pub struct UslpFrame {
    pub version: u8,
    pub spacecraft_id: u16,
    pub source_or_destination: bool,
    pub vc_id: VcId,
    pub map_id: u8,
    pub frame_length: u16,
    pub truncated: bool,
    pub insert_zone: bool,
    pub payload: Vec<u8>,
}

/// Routes frame data between the frame links and the virtual channels.
pub struct FrameProcessor {
    config: Config,
    buffer: Vec<u8>,
}

/// Where the data of a frame goes: to the writing end of the virtual channel it
/// names, unless the frame is meant for another spacecraft or names a virtual
/// channel without outgoing binding.
pub open spec fn route_of(
    spacecraft_id: u16,
    frame: &TcTransferFrame,
    vc_in_map: Map<VcId, Sender>,
) -> Result<Sender, FrameProcessingError> {
    if frame.spacecraft_id != spacecraft_id {
        Err(FrameProcessingError::UnknownSpacecraft(frame.spacecraft_id))
    } else if !vc_in_map.contains_key(frame.vc_id) {
        Err(FrameProcessingError::UnknownVirtualChannel(frame.vc_id))
    } else {
        Ok(vc_in_map[frame.vc_id])
    }
}

impl FrameProcessor {
    /// The configuration that the processor was made for.
    pub closed spec fn configuration(&self) -> Config {
        self.config
    }

    /// The spacecraft that the processor serves.
    pub open spec fn spacecraft_id(&self) -> u16 {
        self.configuration().frames.spacecraft_id
    }

    /// The bytes gathered so far.
    pub closed spec fn gathered(&self) -> Seq<u8> {
        self.buffer@
    }

    /// A processor for the given configuration that has gathered nothing.
    pub fn new(config: Config) -> (processor: Self)
        ensures
            processor.configuration() == config,
            processor.gathered() == Seq::<u8>::empty(),
    {
        FrameProcessor { config, buffer: Vec::new() }
    }

    /// The configuration that the processor was made for.
    pub fn config(&self) -> (config: &Config)
        ensures
            *config == self.configuration(),
    {
        &self.config
    }

    /// Whether `event` is what `data` leads to when `decoded` is what the decoder
    /// makes of the bytes gathered with it.
    pub open spec fn step(
        &self,
        data: Seq<u8>,
        decoded: Option<(TcTransferFrame, usize)>,
        vc_in_map: Map<VcId, Sender>,
        event: FrameEvent,
        after: Seq<u8>,
    ) -> bool {
        match decoded {
            None => event is Incomplete && after == self.gathered() + data,
            Some((frame, size)) => {
                &&& after == Seq::<u8>::empty()
                &&& match route_of(self.spacecraft_id(), &frame, vc_in_map) {
                    Ok(to) => event matches FrameEvent::Delivered(d) && d.vc_id == frame.vc_id
                        && d.to == to && d.data@ == frame.data_field@,
                    Err(e) => event == FrameEvent::Dropped(e),
                }
            },
        }
    }

    /// Takes in bytes of the incoming link.
    ///
    /// Bytes that do not fit with those gathered before, within the buffer size,
    /// reset the decoder: everything gathered is dropped, and so are they.
    /// Otherwise they are gathered, and the decoder is asked for one frame from all
    /// that is gathered. Without a frame the bytes stay. With a frame, its data is
    /// routed: dropped where the frame is meant for another spacecraft or for a
    /// virtual channel without outgoing binding, else delivered to the virtual
    /// channel that the frame names; and the gathered bytes are dropped.
    pub fn process_incoming_frames<F: FnOnce(&[u8]) -> Option<(TcTransferFrame, usize)>>(
        &mut self,
        data: &[u8],
        decode: F,
        vc_in_map: &VirtualChannelTxMap,
    ) -> (event: FrameEvent)
        requires
            forall|bytes: &[u8]| decode.requires((bytes,)),
        ensures
            final(self).configuration() == old(self).configuration(),
            if old(self).gathered().len() + data@.len() > FRAME_PROCESSING_BUFFER_SIZE {
                event is DecoderReset && final(self).gathered() == Seq::<u8>::empty()
            } else {
                exists|pending: &[u8], decoded: Option<(TcTransferFrame, usize)>|
                    {
                        &&& pending@ == old(self).gathered() + data@
                        &&& decode.ensures((pending,), decoded)
                        &&& old(self).step(data@, decoded, vc_in_map@, event, final(self).gathered())
                    }
            },
    {
        if self.buffer.len() > FRAME_PROCESSING_BUFFER_SIZE || data.len()
            > FRAME_PROCESSING_BUFFER_SIZE - self.buffer.len() {
            self.buffer.clear();
            return FrameEvent::DecoderReset;
        }
        let ghost before = self.buffer@;
        let mut i: usize = 0;
        while i < data.len()
            invariant
                i <= data.len(),
                self.buffer@ =~= before + data@.take(i as int),
                self.config == old(self).config,
            decreases data.len() - i,
        {
            self.buffer.push(data[i]);
            i = i + 1;
        }
        proof {
            assert(data@.take(data@.len() as int) =~= data@);
        }
        let pending = self.buffer.as_slice();
        let decoded = decode(pending);
        let ghost witness = decoded;
        match decoded {
            None => FrameEvent::Incomplete,
            Some((frame, _size)) => {
                let event = match self.distribute_vc_data(&frame, vc_in_map) {
                    Ok(delivery) => FrameEvent::Delivered(delivery),
                    Err(e) => FrameEvent::Dropped(e),
                };
                self.buffer.clear();
                proof {
                    assert(old(self).step(data@, witness, vc_in_map@, event, self.gathered()));
                }
                event
            },
        }
    }

    /// Routes the data of a frame: to the writing end of the virtual channel that
    /// the frame names.
    pub fn distribute_vc_data(&self, frame: &TcTransferFrame, vc_in_map: &VirtualChannelTxMap) -> (r:
        Result<Delivery, FrameProcessingError>)
        ensures
            match route_of(self.spacecraft_id(), frame, vc_in_map@) {
                Ok(to) => r matches Ok(d) && d.vc_id == frame.vc_id && d.to == to && d.data@
                    == frame.data_field@,
                Err(e) => r == Err::<Delivery, FrameProcessingError>(e),
            },
    {
        broadcast use vstd::std_specs::hash::group_hash_axioms;

        if frame.spacecraft_id != self.config.frames.spacecraft_id {
            return Err(FrameProcessingError::UnknownSpacecraft(frame.spacecraft_id));
        }
        match vc_in_map.get(&frame.vc_id) {
            None => Err(FrameProcessingError::UnknownVirtualChannel(frame.vc_id)),
            Some(sender) => Ok(
                Delivery {
                    vc_id: frame.vc_id,
                    to: *sender,
                    data: copy_bytes(frame.data_field.as_slice()),
                },
            ),
        }
    }

    /// The frame that carries `data` of the virtual channel `vc_id`.
    pub open spec fn frame_for(vc_id: VcId, data: Seq<u8>, frame: UslpFrame) -> bool {
        &&& frame.version == USLP_VERSION
        &&& frame.spacecraft_id == USLP_SPACECRAFT_ID
        &&& frame.source_or_destination
        &&& frame.vc_id == vc_id
        &&& frame.map_id == 0
        &&& frame.frame_length == USLP_FRAME_LENGTH
        &&& !frame.truncated
        &&& !frame.insert_zone
        &&& frame.payload@ == data
    }

    /// Whether `bytes` is what `encode` makes of the frame that carries `data` of
    /// the virtual channel `vc_id`.
    pub open spec fn framed_by<F: FnOnce(UslpFrame) -> Option<Vec<u8>>>(
        encode: F,
        vc_id: VcId,
        data: Seq<u8>,
        bytes: Option<Vec<u8>>,
    ) -> bool {
        exists|frame: UslpFrame|
            Self::frame_for(vc_id, data, frame) && encode.ensures((frame,), bytes)
    }

    /// Frames what the virtual channels have handed over, one frame for each
    /// payload and in their order: at each place the bytes that `encode` makes of
    /// the frame of that payload, to be sent on the outgoing link.
    pub fn process_frames_out<F: Fn(UslpFrame) -> Option<Vec<u8>>>(
        &self,
        ready: &Vec<(VcId, Vec<u8>)>,
        encode: F,
    ) -> (framed: Vec<Option<Vec<u8>>>)
        requires
            forall|frame: UslpFrame| encode.requires((frame,)),
        ensures
            framed@.len() == ready@.len(),
            forall|i: int|
                0 <= i < ready@.len() ==> Self::framed_by(
                    encode,
                    ready@[i].0,
                    ready@[i].1@,
                    #[trigger] framed@[i],
                ),
    {
        let mut framed: Vec<Option<Vec<u8>>> = Vec::new();
        let mut k: usize = 0;
        while k < ready.len()
            invariant
                k <= ready@.len(),
                framed@.len() == k,
                forall|frame: UslpFrame| encode.requires((frame,)),
                forall|i: int|
                    0 <= i < k ==> Self::framed_by(
                        encode,
                        ready@[i].0,
                        ready@[i].1@,
                        #[trigger] framed@[i],
                    ),
            decreases ready@.len() - k,
        {
            let frame = UslpFrame {
                version: USLP_VERSION,
                spacecraft_id: USLP_SPACECRAFT_ID,
                source_or_destination: true,
                vc_id: ready[k].0,
                map_id: 0,
                frame_length: USLP_FRAME_LENGTH,
                truncated: false,
                insert_zone: false,
                payload: copy_bytes(ready[k].1.as_slice()),
            };
            let ghost witness = frame;
            let ghost before = framed@;
            let bytes = encode(frame);
            framed.push(bytes);
            proof {
                assert(Self::frame_for(ready@[k as int].0, ready@[k as int].1@, witness)
                    && encode.ensures((witness,), framed@[k as int]));
                assert forall|i: int| 0 <= i < k + 1 implies Self::framed_by(
                    encode,
                    ready@[i].0,
                    ready@[i].1@,
                    #[trigger] framed@[i],
                ) by {
                    if i < k {
                        assert(framed@[i] == before[i]);
                    }
                }
            }
            k = k + 1;
        }
        framed
    }

    /// Frames the data of a virtual channel and has the frame encoded: the bytes
    /// that `encode` makes of the frame are those to send on the outgoing link.
    pub fn frame_and_send_virtual_channel_data<F: FnOnce(UslpFrame) -> Option<Vec<u8>>>(
        &self,
        vc_id: VcId,
        data: &[u8],
        encode: F,
    ) -> (bytes: Option<Vec<u8>>)
        requires
            forall|frame: UslpFrame| encode.requires((frame,)),
        ensures
            Self::framed_by(encode, vc_id, data@, bytes),
    {
        let frame = UslpFrame {
            version: USLP_VERSION,
            spacecraft_id: USLP_SPACECRAFT_ID,
            source_or_destination: true,
            vc_id,
            map_id: 0,
            frame_length: USLP_FRAME_LENGTH,
            truncated: false,
            insert_zone: false,
            payload: copy_bytes(data),
        };
        let ghost witness = frame;
        let bytes = encode(frame);
        proof {
            assert(Self::frame_for(vc_id, data@, witness) && encode.ensures((witness,), bytes));
        }
        bytes
    }
}

} // verus!
