//! The state that the receiving loop, the sending loop and the display
//! share, and what each loop decides. The loops themselves do the waiting,
//! reading and writing; after each read or write they ask here what has
//! become of the state and what to do next.

use vstd::prelude::*;
use crate::color::{channel_to_8bit, color_to_u8_tuple, ColorRGB};
use crate::command::{measurement_command, measurement_text};
use crate::frame::{Frame, FrameError, FrameView};
use crate::parser::{
    parse_measurement_from_xml, parse_spec, MeasurementResult, MeasurementView, ParseError,
};
use crate::shape::{copy_shapes, ShapeInstruction, ShapeView};
use crate::xml::xml_tokens;

verus! {

/// How long the receiving loop waits before it reads again after a
/// disconnect signal or a failed read, in milliseconds.
pub const RETRY_BACKOFF_MS: u64 = 50;

/// How long the sending loop waits between two requests, in milliseconds.
pub const SEND_INTERVAL_MS: u64 = 1000;

/// How long one attempt to connect may take, in milliseconds.
pub const CONNECT_TIMEOUT_MS: u64 = 500;

/// What the loops and the display share.
#[derive(Debug)]
pub struct SharedState {
    /// Whether the last read brought a measurement.
    pub connected: bool,
    /// The shapes to draw.
    pub shapes: Vec<ShapeInstruction>,
    /// The color that was measured last.
    pub current_measure_colour: ColorRGB,
    /// The color that the display wants measured.
    pub request_colour: ColorRGB,
}

/// What a [`SharedState`] stands for.
pub struct SharedView {
    pub connected: bool,
    pub shapes: Seq<ShapeView>,
    pub current_measure_colour: ColorRGB,
    pub request_colour: ColorRGB,
}

impl View for SharedState {
    type V = SharedView;

    open spec fn view(&self) -> SharedView {
        SharedView {
            connected: self.connected,
            shapes: self.shapes.deep_view(),
            current_measure_colour: self.current_measure_colour,
            request_colour: self.request_colour,
        }
    }
}

/// A violation of the protocol by the remote. None of them is recovered
/// from.
#[derive(Clone, Copy, Debug, PartialEq, Eq, Structural)]
pub enum ProtocolViolation {
    DuplicateCommand,
    IncompleteShape,
    MalformedXml,
    /// The payload of a frame was no UTF-8 text.
    InvalidPayload,
}

/// The violation that a refusal of the parser is.
pub open spec fn violation_of(error: ParseError) -> ProtocolViolation {
    match error {
        ParseError::DuplicateCommand => ProtocolViolation::DuplicateCommand,
        ParseError::IncompleteShape => ProtocolViolation::IncompleteShape,
        ParseError::MalformedXml => ProtocolViolation::MalformedXml,
    }
}

/// What an attempt to read one frame came to.
#[derive(Debug)]
pub enum ReadOutcome {
    /// The frame held a message, and this is what it reports.
    Measurement(MeasurementResult),
    /// The frame held what the protocol does not allow.
    Violation(ProtocolViolation),
    /// The frame was the disconnect signal.
    Disconnect,
    /// The read failed.
    Failed,
}

/// What a [`ReadOutcome`] stands for.
pub enum OutcomeView {
    Measurement(MeasurementView),
    Violation(ProtocolViolation),
    Disconnect,
    Failed,
}

impl View for ReadOutcome {
    type V = OutcomeView;

    open spec fn view(&self) -> OutcomeView {
        match self {
            ReadOutcome::Measurement(measurement) => OutcomeView::Measurement(measurement@),
            ReadOutcome::Violation(violation) => OutcomeView::Violation(*violation),
            ReadOutcome::Disconnect => OutcomeView::Disconnect,
            ReadOutcome::Failed => OutcomeView::Failed,
        }
    }
}

/// What the receiving loop does next.
#[derive(Clone, Copy, Debug, PartialEq, Eq, Structural)]
pub enum ReceiverAction {
    /// Read the next frame at once.
    Continue,
    /// Wait so many milliseconds, then read again on the same connection.
    Backoff { millis: u64 },
    /// Stop for good: the remote broke the protocol.
    Stop(ProtocolViolation),
}

/// What the sending loop does next.
#[derive(Clone, Copy, Debug, PartialEq, Eq, Structural)]
pub enum SenderAction {
    /// Wait so many milliseconds, then send the next request.
    Wait { millis: u64 },
    /// Stop for good: the connection is broken.
    Stop,
}

/// The color that a measurement reports: that of its first shape, and only
/// where it has no shape the channel values of its result, at eight bits.
pub open spec fn measured_color(measurement: MeasurementView) -> ColorRGB {
    if measurement.shapes.len() > 0 {
        measurement.shapes[0].color()
    } else {
        ColorRGB {
            red: measurement.red,
            green: measurement.green,
            blue: measurement.blue,
            depth_bits: 8,
        }
    }
}

/// What reading a frame comes to, for a client that has requested the
/// channel values `red`, `green` and `blue`.
pub open spec fn interpretation(
    read: Result<FrameView, FrameError>,
    red: u16,
    green: u16,
    blue: u16,
) -> OutcomeView {
    match read {
        Ok(FrameView::Payload(text)) => match parse_spec(xml_tokens(text), red, green, blue) {
            Ok(measurement) => OutcomeView::Measurement(measurement),
            Err(error) => OutcomeView::Violation(violation_of(error)),
        },
        Ok(FrameView::Disconnect) => OutcomeView::Disconnect,
        Err(FrameError::InvalidPayload) => OutcomeView::Violation(ProtocolViolation::InvalidPayload),
        Err(_) => OutcomeView::Failed,
    }
}

impl SharedView {
    /// The state at the start: not connected, nothing to draw, both colors
    /// black at eight bits.
    pub open spec fn initial() -> SharedView {
        SharedView {
            connected: false,
            shapes: Seq::empty(),
            current_measure_colour: ColorRGB { red: 0, green: 0, blue: 0, depth_bits: 8 },
            request_colour: ColorRGB { red: 0, green: 0, blue: 0, depth_bits: 8 },
        }
    }

    /// The state after a measurement: connected, with the shapes and the
    /// color of the measurement.
    pub open spec fn after_measurement(self, measurement: MeasurementView) -> SharedView {
        SharedView {
            connected: true,
            shapes: measurement.shapes,
            current_measure_colour: measured_color(measurement),
            ..self
        }
    }

    /// The state with the connection marked as lost.
    pub open spec fn disconnected(self) -> SharedView {
        SharedView { connected: false, ..self }
    }

    /// The state after an attempt to read, and what the receiving loop does
    /// next. A violation leaves the state as it is.
    pub open spec fn after_read(self, outcome: OutcomeView) -> (SharedView, ReceiverAction) {
        match outcome {
            OutcomeView::Measurement(measurement) => (
                self.after_measurement(measurement),
                ReceiverAction::Continue,
            ),
            OutcomeView::Violation(violation) => (self, ReceiverAction::Stop(violation)),
            OutcomeView::Disconnect => (
                self.disconnected(),
                ReceiverAction::Backoff { millis: RETRY_BACKOFF_MS },
            ),
            OutcomeView::Failed => (
                self.disconnected(),
                ReceiverAction::Backoff { millis: RETRY_BACKOFF_MS },
            ),
        }
    }

    /// The request that the sending loop sends: the requested color at eight
    /// bits per channel, whether connected or not.
    pub open spec fn request_text(self) -> Seq<char> {
        measurement_text(
            channel_to_8bit(self.request_colour.red, self.request_colour.depth_bits),
            channel_to_8bit(self.request_colour.green, self.request_colour.depth_bits),
            channel_to_8bit(self.request_colour.blue, self.request_colour.depth_bits),
        )
    }

    /// The state after an attempt to write, and what the sending loop does
    /// next.
    pub open spec fn after_write(self, written: bool) -> (SharedView, SenderAction) {
        if written {
            (self, SenderAction::Wait { millis: SEND_INTERVAL_MS })
        } else {
            (self.disconnected(), SenderAction::Stop)
        }
    }
}

impl Default for SharedState {
    fn default() -> (state: Self)
        ensures
            state@ == SharedView::initial(),
    {
        let state = SharedState {
            connected: false,
            shapes: Vec::new(),
            current_measure_colour: ColorRGB::default(),
            request_colour: ColorRGB::default(),
        };
        assert(state.shapes.deep_view() =~= Seq::empty());
        state
    }
}

impl SharedState {
    /// Says what a read came to. A payload is parsed with the channel values
    /// of the requested color to fall back on.
    pub fn interpret(&self, read: Result<Frame, FrameError>) -> (outcome: ReadOutcome)
        ensures
            outcome@ == interpretation(
                match read {
                    Ok(frame) => Ok(frame@),
                    Err(error) => Err(error),
                },
                self.request_colour.red,
                self.request_colour.green,
                self.request_colour.blue,
            ),
    {
        match read {
            Ok(Frame::Payload(text)) => {
                let parsed = parse_measurement_from_xml(
                    text.as_str(),
                    self.request_colour.red,
                    self.request_colour.green,
                    self.request_colour.blue,
                );
                match parsed {
                    Ok(measurement) => ReadOutcome::Measurement(measurement),
                    Err(ParseError::DuplicateCommand) => ReadOutcome::Violation(
                        ProtocolViolation::DuplicateCommand,
                    ),
                    Err(ParseError::IncompleteShape) => ReadOutcome::Violation(
                        ProtocolViolation::IncompleteShape,
                    ),
                    Err(ParseError::MalformedXml) => ReadOutcome::Violation(
                        ProtocolViolation::MalformedXml,
                    ),
                }
            },
            Ok(Frame::Disconnect) => ReadOutcome::Disconnect,
            Err(FrameError::InvalidPayload) => ReadOutcome::Violation(
                ProtocolViolation::InvalidPayload,
            ),
            Err(_) => ReadOutcome::Failed,
        }
    }

    /// Takes in a measurement.
    pub fn apply_measurement(&mut self, measurement: MeasurementResult)
        ensures
            final(self)@ == old(self)@.after_measurement(measurement@),
    {
        self.connected = true;
        if measurement.shapes.len() > 0 {
            self.current_measure_colour = measurement.shapes[0].color();
        } else {
            self.current_measure_colour = ColorRGB::from_components_u16(
                measurement.red,
                measurement.green,
                measurement.blue,
                8,
            );
        }
        self.shapes = measurement.shapes;
    }

    /// Takes in what a read came to, and says what the receiving loop does
    /// next.
    pub fn on_read(&mut self, outcome: ReadOutcome) -> (action: ReceiverAction)
        ensures
            (final(self)@, action) == old(self)@.after_read(outcome@),
    {
        match outcome {
            ReadOutcome::Measurement(measurement) => {
                self.apply_measurement(measurement);
                ReceiverAction::Continue
            },
            ReadOutcome::Violation(violation) => ReceiverAction::Stop(violation),
            ReadOutcome::Disconnect => {
                self.connected = false;
                ReceiverAction::Backoff { millis: RETRY_BACKOFF_MS }
            },
            ReadOutcome::Failed => {
                self.connected = false;
                ReceiverAction::Backoff { millis: RETRY_BACKOFF_MS }
            },
        }
    }

    /// The request that the sending loop sends next.
    pub fn next_request(&self) -> (command: String)
        ensures
            command@ == self@.request_text(),
    {
        let (red, green, blue) = color_to_u8_tuple(self.request_colour);
        measurement_command(red, green, blue)
    }

    /// Takes in whether a request could be written, and says what the
    /// sending loop does next.
    pub fn on_write(&mut self, written: bool) -> (action: SenderAction)
        ensures
            (final(self)@, action) == old(self)@.after_write(written),
    {
        if written {
            SenderAction::Wait { millis: SEND_INTERVAL_MS }
        } else {
            self.connected = false;
            SenderAction::Stop
        }
    }

    /// Sets the color that the display wants measured.
    pub fn set_requested_color(&mut self, color: ColorRGB)
        ensures
            final(self)@ == (SharedView { request_colour: color, ..old(self)@ }),
    {
        self.request_colour = color;
    }

    /// What the display reads: whether connected, the shapes to draw, and the
    /// color measured last.
    pub fn snapshot(&self) -> (seen: (bool, Vec<ShapeInstruction>, ColorRGB))
        ensures
            seen.0 == self.connected,
            seen.1.deep_view() == self@.shapes,
            seen.2 == self.current_measure_colour,
    {
        (self.connected, copy_shapes(&self.shapes), self.current_measure_colour)
    }
}

} // verus!
