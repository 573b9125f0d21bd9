//! The inbound side of the protocol: reading one message into a measurement.
//!
//! A message is read token by token. The parser keeps the stack of open
//! elements, the names of the commands seen so far, whether it is inside a
//! `result` element, and the rectangle that is being assembled. What it does
//! with each token is stated by [`ParserView::step`], and what a whole
//! message yields by [`parse_spec`].

use vstd::prelude::*;
use crate::builder::{BuilderView, RectangleBuilder};
use crate::literal::{is_real_literal, RealLiteral};
use crate::number::{parse_u16, parse_unsigned};
use crate::shape::{ShapeInstruction, ShapeView};
use crate::text::{str_equal, trim, trimmed};
use crate::xml::{
    well_terminated, xml_tokens, AttributeView, TokenView, XmlAttribute, XmlReader, XmlToken,
};

verus! {

/// Why a message was refused.
#[derive(Clone, Copy, Debug, PartialEq, Eq, Structural)]
pub enum ParseError {
    /// A command name occurred a second time directly below the envelope.
    DuplicateCommand,
    /// A rectangle was closed, or the message ended inside it, before any
    /// color of it was read.
    IncompleteShape,
    /// The text is not well-formed XML.
    MalformedXml,
}

/// What one message reports.
#[derive(Clone, Debug, PartialEq, Eq)]
pub struct MeasurementResult {
    pub red: u16,
    pub green: u16,
    pub blue: u16,
    /// The tristimulus readings, where the message reports them.
    pub x: Option<RealLiteral>,
    pub y: Option<RealLiteral>,
    pub y_lum: Option<RealLiteral>,
    /// The shapes to draw, in the order of the message.
    pub shapes: Vec<ShapeInstruction>,
}

/// What a [`MeasurementResult`] stands for.
pub struct MeasurementView {
    pub red: u16,
    pub green: u16,
    pub blue: u16,
    pub x: Option<Seq<char>>,
    pub y: Option<Seq<char>>,
    pub y_lum: Option<Seq<char>>,
    pub shapes: Seq<ShapeView>,
}

impl View for MeasurementResult {
    type V = MeasurementView;

    open spec fn view(&self) -> MeasurementView {
        MeasurementView {
            red: self.red,
            green: self.green,
            blue: self.blue,
            x: self.x.deep_view(),
            y: self.y.deep_view(),
            y_lum: self.y_lum.deep_view(),
            shapes: self.shapes.deep_view(),
        }
    }
}

impl DeepView for MeasurementResult {
    type V = MeasurementView;

    open spec fn deep_view(&self) -> MeasurementView {
        self@
    }
}

/// The outcome of parsing, with the measurement as what it stands for.
pub open spec fn outcome_view(outcome: Result<MeasurementResult, ParseError>) -> Result<
    MeasurementView,
    ParseError,
> {
    match outcome {
        Ok(measurement) => Ok(measurement@),
        Err(error) => Err(error),
    }
}

/// A channel value after character data `text`: the number that the text
/// denotes, or the earlier value where it denotes none.
pub open spec fn channel_after(previous: u16, text: Seq<char>) -> u16 {
    match parse_unsigned(text, 0xFFFF) {
        Some(value) => value as u16,
        None => previous,
    }
}

/// A reading after character data `text`: the text where it denotes a real
/// number, or the earlier reading where it does not.
pub open spec fn reading_after(previous: Option<Seq<char>>, text: Seq<char>) -> Option<Seq<char>> {
    if is_real_literal(text) {
        Some(text)
    } else {
        previous
    }
}

/// The state of the parser between two tokens.
pub struct ParserView {
    /// The names of the open elements, outermost first.
    pub stack: Seq<Seq<char>>,
    /// The names of the commands seen so far: the elements opened directly
    /// below the envelope.
    pub commands: Seq<Seq<char>>,
    /// The name of the element that was opened last.
    pub current: Seq<char>,
    /// Whether a `result` element has been opened and not closed since.
    pub in_result: bool,
    /// The rectangle that is being assembled, if one is open.
    pub builder: Option<BuilderView>,
    /// The finished shapes.
    pub shapes: Seq<ShapeView>,
    pub red: u16,
    pub green: u16,
    pub blue: u16,
    pub x: Option<Seq<char>>,
    pub y: Option<Seq<char>>,
    pub y_lum: Option<Seq<char>>,
}

impl ParserView {
    /// The state before the first token. The channel values start as the
    /// caller's fallback.
    pub open spec fn start(red: u16, green: u16, blue: u16) -> ParserView {
        ParserView {
            stack: Seq::empty(),
            commands: Seq::empty(),
            current: Seq::empty(),
            in_result: false,
            builder: None,
            shapes: Seq::empty(),
            red,
            green,
            blue,
            x: None,
            y: None,
            y_lum: None,
        }
    }

    /// The rectangle under assembly after a tag `name` with `attributes`:
    /// `color` (or `colex`) and `geometry` add to an open rectangle, and
    /// change nothing where none is open.
    pub open spec fn builder_after(self, name: Seq<char>, attributes: Seq<Option<AttributeView>>)
        -> Option<BuilderView> {
        match self.builder {
            Some(builder) => if name == "color"@ || name == "colex"@ {
                Some(builder.with_color(attributes))
            } else if name == "geometry"@ {
                Some(builder.with_geometry(attributes))
            } else {
                self.builder
            },
            None => None,
        }
    }

    /// Whether opening `name` now repeats a command: it would be the second
    /// open element, and a command of that name was seen before.
    pub open spec fn repeats_command(self, name: Seq<char>) -> bool {
        self.stack.len() == 1 && self.commands.contains(name)
    }

    /// The state after an opening tag.
    pub open spec fn on_start(self, name: Seq<char>, attributes: Seq<Option<AttributeView>>)
        -> Result<ParserView, ParseError> {
        if self.repeats_command(name) {
            Err(ParseError::DuplicateCommand)
        } else {
            Ok(
                ParserView {
                    stack: self.stack.push(name),
                    commands: if self.stack.len() == 1 {
                        self.commands.push(name)
                    } else {
                        self.commands
                    },
                    current: name,
                    in_result: self.in_result || name == "result"@,
                    builder: if name == "rectangle"@ {
                        Some(BuilderView::empty())
                    } else {
                        self.builder_after(name, attributes)
                    },
                    ..self
                },
            )
        }
    }

    /// The state after a closing tag. Closing `rectangle` finishes the open
    /// rectangle, which fails where it has no color.
    pub open spec fn on_end(self, name: Seq<char>) -> Result<ParserView, ParseError> {
        let closed = ParserView {
            stack: if self.stack.len() > 0 {
                self.stack.drop_last()
            } else {
                self.stack
            },
            in_result: self.in_result && name != "result"@,
            ..self
        };
        if name == "rectangle"@ && self.builder is Some {
            match self.builder->0.build() {
                Some(rectangle) => Ok(
                    ParserView {
                        builder: None,
                        shapes: self.shapes.push(ShapeView::Rectangle(rectangle)),
                        ..closed
                    },
                ),
                None => Err(ParseError::IncompleteShape),
            }
        } else {
            Ok(closed)
        }
    }

    /// The state after a self-closing tag.
    pub open spec fn on_empty(self, name: Seq<char>, attributes: Seq<Option<AttributeView>>)
        -> ParserView {
        ParserView { builder: self.builder_after(name, attributes), ..self }
    }

    /// The state after character data. Only inside a `result` element does
    /// it count, and there only for the element that was opened last: `red`,
    /// `green` and `blue` take a channel value, `x`, `y` and `Y` a reading.
    /// Text that denotes no number leaves the earlier value.
    pub open spec fn on_text(self, content: Seq<char>) -> ParserView {
        let text = trimmed(content);
        if text.len() == 0 || !self.in_result {
            self
        } else if self.current == "red"@ {
            ParserView { red: channel_after(self.red, text), ..self }
        } else if self.current == "green"@ {
            ParserView { green: channel_after(self.green, text), ..self }
        } else if self.current == "blue"@ {
            ParserView { blue: channel_after(self.blue, text), ..self }
        } else if self.current == "x"@ {
            ParserView { x: reading_after(self.x, text), ..self }
        } else if self.current == "y"@ {
            ParserView { y: reading_after(self.y, text), ..self }
        } else if self.current == "Y"@ {
            ParserView { y_lum: reading_after(self.y_lum, text), ..self }
        } else {
            self
        }
    }

    /// The state after one token, or the violation that the token is.
    pub open spec fn step(self, token: TokenView) -> Result<ParserView, ParseError> {
        match token {
            TokenView::Start { name, attributes } => self.on_start(name, attributes),
            TokenView::End { name } => self.on_end(name),
            TokenView::Empty { name, attributes } => Ok(self.on_empty(name, attributes)),
            TokenView::Text { content } => Ok(self.on_text(content)),
            TokenView::Other => Ok(self),
            TokenView::Eof => Ok(self),
            TokenView::Malformed => Err(ParseError::MalformedXml),
        }
    }

    /// The measurement at the end of the message. A rectangle that is still
    /// open is finished first, which fails where it has no color.
    pub open spec fn finish(self) -> Result<MeasurementView, ParseError> {
        let shapes = match self.builder {
            Some(builder) => match builder.build() {
                Some(rectangle) => Some(self.shapes.push(ShapeView::Rectangle(rectangle))),
                None => None,
            },
            None => Some(self.shapes),
        };
        match shapes {
            Some(shapes) => Ok(
                MeasurementView {
                    red: self.red,
                    green: self.green,
                    blue: self.blue,
                    x: self.x,
                    y: self.y,
                    y_lum: self.y_lum,
                    shapes,
                },
            ),
            None => Err(ParseError::IncompleteShape),
        }
    }

    /// What reading `tokens` from this state yields: the tokens are taken in
    /// order up to the end of the text, and the first violation ends the
    /// reading.
    pub open spec fn run(self, tokens: Seq<TokenView>) -> Result<MeasurementView, ParseError>
        decreases tokens.len(),
    {
        if tokens.len() == 0 || tokens[0] is Eof {
            self.finish()
        } else {
            match self.step(tokens[0]) {
                Ok(next) => next.run(tokens.skip(1)),
                Err(error) => Err(error),
            }
        }
    }
}

/// What a message of these tokens yields, with `red`, `green` and `blue` as
/// the channel values to fall back on.
pub open spec fn parse_spec(tokens: Seq<TokenView>, red: u16, green: u16, blue: u16) -> Result<
    MeasurementView,
    ParseError,
> {
    ParserView::start(red, green, blue).run(tokens)
}

/// Whether `names` holds `name`.
fn holds_name(names: &Vec<String>, name: &str) -> (found: bool)
    ensures
        found == names.deep_view().contains(name@),
{
    let mut i: usize = 0;
    while i < names.len()
        invariant
            i <= names.len(),
            forall|j: int| 0 <= j < i ==> names.deep_view()[j] != name@,
        decreases names.len() - i,
    {
        if str_equal(names[i].as_str(), name) {
            assert(names.deep_view()[i as int] == name@);
            return true;
        }
        i = i + 1;
    }
    false
}

/// The parser of one message.
pub struct MeasurementParser {
    stack: Vec<String>,
    commands: Vec<String>,
    current: String,
    in_result: bool,
    builder: Option<RectangleBuilder>,
    shapes: Vec<ShapeInstruction>,
    red: u16,
    green: u16,
    blue: u16,
    x: Option<RealLiteral>,
    y: Option<RealLiteral>,
    y_lum: Option<RealLiteral>,
}

impl View for MeasurementParser {
    type V = ParserView;

    closed spec fn view(&self) -> ParserView {
        ParserView {
            stack: self.stack.deep_view(),
            commands: self.commands.deep_view(),
            current: self.current@,
            in_result: self.in_result,
            builder: self.builder.deep_view(),
            shapes: self.shapes.deep_view(),
            red: self.red,
            green: self.green,
            blue: self.blue,
            x: self.x.deep_view(),
            y: self.y.deep_view(),
            y_lum: self.y_lum.deep_view(),
        }
    }
}

impl MeasurementParser {
    /// A parser before the first token, with the channel values to fall back
    /// on.
    pub fn new(red: u16, green: u16, blue: u16) -> (parser: Self)
        ensures
            parser@ == ParserView::start(red, green, blue),
    {
        let parser = MeasurementParser {
            stack: Vec::new(),
            commands: Vec::new(),
            current: String::new(),
            in_result: false,
            builder: None,
            shapes: Vec::new(),
            red,
            green,
            blue,
            x: None,
            y: None,
            y_lum: None,
        };
        assert(parser.stack.deep_view() =~= Seq::empty());
        assert(parser.commands.deep_view() =~= Seq::empty());
        assert(parser.shapes.deep_view() =~= Seq::empty());
        parser
    }

    /// Adds to the open rectangle what a tag `name` with `attributes` says
    /// of it.
    fn update_builder(&mut self, name: &str, attributes: &Vec<Option<XmlAttribute>>)
        ensures
            final(self)@ == (ParserView {
                builder: old(self)@.builder_after(name@, attributes.deep_view()),
                ..old(self)@
            }),
    {
        match self.builder.take() {
            Some(mut builder) => {
                if str_equal(name, "color") || str_equal(name, "colex") {
                    builder.apply_color(attributes);
                } else if str_equal(name, "geometry") {
                    builder.apply_geometry(attributes);
                }
                self.builder = Some(builder);
            },
            None => {},
        }
    }

    /// Takes in an opening tag.
    fn start_element(&mut self, name: &String, attributes: &Vec<Option<XmlAttribute>>) -> (r:
        Result<(), ParseError>)
        ensures
            match old(self)@.on_start(name@, attributes.deep_view()) {
                Ok(next) => r is Ok && final(self)@ == next,
                Err(error) => r == Err::<(), ParseError>(error),
            },
    {
        if self.stack.len() == 1 {
            if holds_name(&self.commands, name.as_str()) {
                return Err(ParseError::DuplicateCommand);
            }
            let ghost before = self.commands.deep_view();
            self.commands.push(name.clone());
            assert(self.commands.deep_view() =~= before.push(name@));
        }
        let ghost before = self.stack.deep_view();
        self.stack.push(name.clone());
        assert(self.stack.deep_view() =~= before.push(name@));
        self.current = name.clone();
        if str_equal(name.as_str(), "result") {
            self.in_result = true;
        }
        if str_equal(name.as_str(), "rectangle") {
            self.builder = Some(RectangleBuilder::new());
        } else {
            self.update_builder(name.as_str(), attributes);
        }
        Ok(())
    }

    /// Takes in a closing tag.
    fn end_element(&mut self, name: &String) -> (r: Result<(), ParseError>)
        ensures
            match old(self)@.on_end(name@) {
                Ok(next) => r is Ok && final(self)@ == next,
                Err(error) => r == Err::<(), ParseError>(error),
            },
    {
        if str_equal(name.as_str(), "result") {
            self.in_result = false;
        }
        if str_equal(name.as_str(), "rectangle") {
            match self.builder.take() {
                Some(builder) => match builder.build() {
                    Some(rectangle) => {
                        let ghost before = self.shapes.deep_view();
                        let shape = ShapeInstruction::Rectangle(rectangle);
                        self.shapes.push(shape);
                        assert(self.shapes.deep_view() =~= before.push(shape@));
                    },
                    None => {
                        return Err(ParseError::IncompleteShape);
                    },
                },
                None => {},
            }
        }
        if self.stack.len() > 0 {
            let ghost before = self.stack.deep_view();
            self.stack.pop();
            assert(self.stack.deep_view() =~= before.drop_last());
        }
        Ok(())
    }

    /// Takes in character data.
    fn character_data(&mut self, content: &String)
        ensures
            final(self)@ == old(self)@.on_text(content@),
    {
        let text = trim(content.as_str());
        if text.as_str().is_empty() || !self.in_result {
            return ;
        }
        let current = self.current.as_str();
        if str_equal(current, "red") {
            match parse_u16(text.as_str()) {
                Some(value) => {
                    self.red = value;
                },
                None => {},
            }
        } else if str_equal(current, "green") {
            match parse_u16(text.as_str()) {
                Some(value) => {
                    self.green = value;
                },
                None => {},
            }
        } else if str_equal(current, "blue") {
            match parse_u16(text.as_str()) {
                Some(value) => {
                    self.blue = value;
                },
                None => {},
            }
        } else if str_equal(current, "x") {
            match RealLiteral::parse(text.as_str()) {
                Some(reading) => {
                    self.x = Some(reading);
                },
                None => {},
            }
        } else if str_equal(current, "y") {
            match RealLiteral::parse(text.as_str()) {
                Some(reading) => {
                    self.y = Some(reading);
                },
                None => {},
            }
        } else if str_equal(current, "Y") {
            match RealLiteral::parse(text.as_str()) {
                Some(reading) => {
                    self.y_lum = Some(reading);
                },
                None => {},
            }
        }
    }

    /// Takes in one token. After a violation the parser is of no further
    /// use.
    pub fn feed(&mut self, token: &XmlToken) -> (r: Result<(), ParseError>)
        ensures
            match old(self)@.step(token@) {
                Ok(next) => r is Ok && final(self)@ == next,
                Err(error) => r == Err::<(), ParseError>(error),
            },
    {
        match token {
            XmlToken::Start { name, attributes } => self.start_element(name, attributes),
            XmlToken::End { name } => self.end_element(name),
            XmlToken::Empty { name, attributes } => {
                self.update_builder(name.as_str(), attributes);
                Ok(())
            },
            XmlToken::Text { content } => {
                self.character_data(content);
                Ok(())
            },
            XmlToken::Other => Ok(()),
            XmlToken::Eof => Ok(()),
            XmlToken::Malformed => Err(ParseError::MalformedXml),
        }
    }

    /// Ends the message and hands out the measurement.
    pub fn finish(self) -> (r: Result<MeasurementResult, ParseError>)
        ensures
            outcome_view(r) == self@.finish(),
    {
        let mut shapes = self.shapes;
        match self.builder {
            Some(builder) => match builder.build() {
                Some(rectangle) => {
                    let ghost before = shapes.deep_view();
                    let shape = ShapeInstruction::Rectangle(rectangle);
                    shapes.push(shape);
                    assert(shapes.deep_view() =~= before.push(shape@));
                },
                None => {
                    return Err(ParseError::IncompleteShape);
                },
            },
            None => {},
        }
        Ok(
            MeasurementResult {
                red: self.red,
                green: self.green,
                blue: self.blue,
                x: self.x,
                y: self.y,
                y_lum: self.y_lum,
                shapes,
            },
        )
    }
}

/// What is left of a complete reading after a token that does not end it is
/// a complete reading again.
proof fn lemma_rest_well_terminated(tokens: Seq<TokenView>)
    requires
        well_terminated(tokens),
        !tokens[0].is_terminal(),
    ensures
        well_terminated(tokens.skip(1)),
{
    let rest = tokens.skip(1);
    assert(tokens.len() > 1);
    assert(rest.last() == tokens.last());
    assert forall|i: int| 0 <= i < rest.len() - 1 implies !(#[trigger] rest[i]).is_terminal() by {
        assert(rest[i] == tokens[i + 1]);
    }
}

/// Reads a message that is given as its tokens. The tokens count up to the
/// first `Eof`, or all of them where there is none.
pub fn parse_tokens(tokens: &Vec<XmlToken>, red: u16, green: u16, blue: u16) -> (r: Result<
    MeasurementResult,
    ParseError,
>)
    ensures
        outcome_view(r) == parse_spec(tokens.deep_view(), red, green, blue),
{
    let ghost all = tokens.deep_view();
    let mut parser = MeasurementParser::new(red, green, blue);
    let mut i: usize = 0;
    assert(all.skip(0) =~= all);
    while i < tokens.len()
        invariant
            i <= tokens.len(),
            all == tokens.deep_view(),
            parser@.run(all.skip(i as int)) == parse_spec(all, red, green, blue),
        decreases tokens.len() - i,
    {
        assert(all.skip(i as int)[0] == tokens[i as int]@);
        assert(all.skip(i as int).skip(1) =~= all.skip(i + 1));
        let token = &tokens[i];
        if matches!(token, XmlToken::Eof) {
            return parser.finish();
        }
        match parser.feed(token) {
            Ok(()) => {},
            Err(error) => {
                return Err(error);
            },
        }
        i = i + 1;
    }
    parser.finish()
}

/// Reads the XML text of one message into a measurement. `red`, `green` and
/// `blue` are the requested channel values: the measurement echoes them
/// where the message reports none of its own.
///
/// The text is cut into tokens by the XML reader, and the outcome is what
/// [`parse_spec`] makes of those tokens: the measurement, or the first
/// violation.
pub fn parse_measurement_from_xml(xml: &str, red: u16, green: u16, blue: u16) -> (r: Result<
    MeasurementResult,
    ParseError,
>)
    ensures
        outcome_view(r) == parse_spec(xml_tokens(xml@), red, green, blue),
{
    let mut reader = XmlReader::new(xml);
    let mut parser = MeasurementParser::new(red, green, blue);
    loop
        invariant
            well_terminated(reader.pending()),
            parser@.run(reader.pending()) == parse_spec(xml_tokens(xml@), red, green, blue),
        decreases reader.pending().len(),
    {
        let ghost pending = reader.pending();
        let token = reader.next_token();
        if matches!(token, XmlToken::Eof) {
            return parser.finish();
        }
        match parser.feed(&token) {
            Ok(()) => {},
            Err(error) => {
                return Err(error);
            },
        }
        proof {
            lemma_rest_well_terminated(pending);
        }
    }
}

impl ParserView {
    /// The state after all of `tokens`, or the first violation among them.
    pub open spec fn after(self, tokens: Seq<TokenView>) -> Result<ParserView, ParseError>
        decreases tokens.len(),
    {
        if tokens.len() == 0 {
            Ok(self)
        } else {
            match self.step(tokens[0]) {
                Ok(next) => next.after(tokens.skip(1)),
                Err(error) => Err(error),
            }
        }
    }
}

/// Whether none of `tokens` is the end of the text.
pub open spec fn no_eof(tokens: Seq<TokenView>) -> bool {
    forall|i: int| 0 <= i < tokens.len() ==> !(#[trigger] tokens[i] is Eof)
}

/// Whether none of `tokens` opens a `result` element.
pub open spec fn opens_no_result(tokens: Seq<TokenView>) -> bool {
    forall|i: int|
        0 <= i < tokens.len() ==> !((#[trigger] tokens[i]) is Start && tokens[i].name()
            == "result"@)
}

/// Reading goes on from where the tokens before left off: what a message
/// yields is what its back part yields from the state after its front part,
/// and a violation in the front part is the outcome whatever follows.
pub proof fn lemma_run_after(state: ParserView, front: Seq<TokenView>, back: Seq<TokenView>)
    requires
        no_eof(front),
    ensures
        state.run(front + back) == match state.after(front) {
            Ok(next) => next.run(back),
            Err(error) => Err(error),
        },
    decreases front.len(),
{
    if front.len() == 0 {
        assert(front + back =~= back);
    } else {
        assert((front + back)[0] == front[0]);
        assert((front + back).skip(1) =~= front.skip(1) + back);
        assert forall|i: int| 0 <= i < front.skip(1).len() implies !(#[trigger] front.skip(1)[i]
            is Eof) by {
            assert(front.skip(1)[i] == front[i + 1]);
        }
        match state.step(front[0]) {
            Ok(next) => {
                lemma_run_after(next, front.skip(1), back);
            },
            Err(_) => {},
        }
    }
}

/// A command that was seen stays seen: no token takes a name out of the
/// commands.
pub proof fn lemma_commands_are_kept(state: ParserView, tokens: Seq<TokenView>, name: Seq<char>)
    requires
        state.commands.contains(name),
    ensures
        state.after(tokens) matches Ok(later) ==> later.commands.contains(name),
    decreases tokens.len(),
{
    if tokens.len() > 0 {
        match state.step(tokens[0]) {
            Ok(next) => {
                let at = choose|i: int| 0 <= i < state.commands.len() && state.commands[i] == name;
                if next.commands != state.commands {
                    assert(next.commands[at] == name);
                }
                lemma_commands_are_kept(next, tokens.skip(1), name);
            },
            Err(_) => {},
        }
    }
}

/// An element that is opened directly below the envelope is a command from
/// then on.
pub proof fn lemma_command_is_remembered(
    state: ParserView,
    name: Seq<char>,
    attributes: Seq<Option<AttributeView>>,
)
    requires
        state.stack.len() == 1,
    ensures
        state.on_start(name, attributes) matches Ok(next) ==> next.commands.contains(name)
            && next.stack.len() == 2,
{
    match state.on_start(name, attributes) {
        Ok(next) => {
            assert(next.commands[state.commands.len() as int] == name);
        },
        Err(_) => {},
    }
}

/// A message that names a command twice is refused. Whatever the message
/// holds up to the second opening of the command, as long as that is read
/// without a violation, and whatever follows it: the outcome is
/// `DuplicateCommand`, never a measurement.
pub proof fn lemma_repeated_command_is_refused(
    front: Seq<TokenView>,
    name: Seq<char>,
    attributes: Seq<Option<AttributeView>>,
    back: Seq<TokenView>,
    red: u16,
    green: u16,
    blue: u16,
)
    requires
        no_eof(front),
        ParserView::start(red, green, blue).after(front) matches Ok(state)
            && state.repeats_command(name),
    ensures
        parse_spec(front + seq![TokenView::Start { name, attributes }] + back, red, green, blue)
            == Err::<MeasurementView, ParseError>(ParseError::DuplicateCommand),
{
    let start = ParserView::start(red, green, blue);
    let opening = seq![TokenView::Start { name, attributes }];
    assert(front + opening + back =~= front + (opening + back));
    lemma_run_after(start, front, opening + back);
    assert((opening + back)[0] == opening[0]);
}

/// The state after a message is the state after its back part, taken from
/// the state after its front part.
pub proof fn lemma_after_append(state: ParserView, front: Seq<TokenView>, back: Seq<TokenView>)
    ensures
        state.after(front + back) == match state.after(front) {
            Ok(next) => next.after(back),
            Err(error) => Err(error),
        },
    decreases front.len(),
{
    if front.len() == 0 {
        assert(front + back =~= back);
    } else {
        assert((front + back)[0] == front[0]);
        assert((front + back).skip(1) =~= front.skip(1) + back);
        match state.step(front[0]) {
            Ok(next) => {
                lemma_after_append(next, front.skip(1), back);
            },
            Err(_) => {},
        }
    }
}

/// A message that closes a command and opens it again is refused: an
/// envelope, a command, any content that is read without a violation and
/// leaves the command as the innermost open element, the end of the
/// command, and the command once more. What follows changes nothing. (A
/// command named `rectangle` is left out: closing it may be a violation of
/// its own.)
pub proof fn lemma_command_closed_and_reopened(
    envelope: TokenView,
    command: Seq<char>,
    first_attributes: Seq<Option<AttributeView>>,
    content: Seq<TokenView>,
    second_attributes: Seq<Option<AttributeView>>,
    back: Seq<TokenView>,
    red: u16,
    green: u16,
    blue: u16,
)
    requires
        envelope is Start,
        command != "rectangle"@,
        no_eof(content),
        ParserView::start(red, green, blue).after(
            seq![envelope, TokenView::Start { name: command, attributes: first_attributes }]
                + content,
        ) matches Ok(state) && state.stack.len() == 2,
    ensures
        parse_spec(
            seq![envelope, TokenView::Start { name: command, attributes: first_attributes }]
                + content + seq![
                TokenView::End { name: command },
                TokenView::Start { name: command, attributes: second_attributes },
            ] + back,
            red,
            green,
            blue,
        ) == Err::<MeasurementView, ParseError>(ParseError::DuplicateCommand),
{
    let start = ParserView::start(red, green, blue);
    let first = TokenView::Start { name: command, attributes: first_attributes };
    let second = TokenView::Start { name: command, attributes: second_attributes };
    let closing = TokenView::End { name: command };
    let head = seq![envelope, first];
    let front = head + content + seq![closing];
    reveal_with_fuel(ParserView::after, 3);

    // The command is seen once the head is read, and stays seen.
    lemma_after_append(start, head, content);
    let opened = start.step(envelope)->Ok_0;
    assert(head.skip(1)[0] == first);
    assert(head.skip(1).skip(1) =~= Seq::<TokenView>::empty());
    assert(opened.stack.len() == 1);
    lemma_command_is_remembered(opened, command, first_attributes);
    let inside = opened.on_start(command, first_attributes)->Ok_0;
    assert(start.after(head) == Ok::<ParserView, ParseError>(inside));
    lemma_commands_are_kept(inside, content, command);
    let state = inside.after(content)->Ok_0;

    // Closing the command leaves the envelope alone on the stack.
    lemma_after_append(start, head + content, seq![closing]);
    assert(seq![closing].skip(1) =~= Seq::<TokenView>::empty());
    let closed = state.on_end(command)->Ok_0;
    assert(start.after(front) == Ok::<ParserView, ParseError>(closed));
    assert(closed.repeats_command(command));

    assert forall|i: int| 0 <= i < front.len() implies !(#[trigger] front[i] is Eof) by {
        if 2 <= i < 2 + content.len() {
            assert(front[i] == content[i - 2]);
        }
    }
    lemma_repeated_command_is_refused(front, command, second_attributes, back, red, green, blue);
    assert(front + seq![second] + back =~= head + content + seq![closing, second] + back);
}

/// A message in which no `result` element is opened reports no readings and
/// echoes the channel values that it was given to fall back on.
pub proof fn lemma_without_result_echoes(
    tokens: Seq<TokenView>,
    red: u16,
    green: u16,
    blue: u16,
)
    requires
        opens_no_result(tokens),
    ensures
        parse_spec(tokens, red, green, blue) matches Ok(measurement) ==> {
            &&& measurement.red == red
            &&& measurement.green == green
            &&& measurement.blue == blue
            &&& measurement.x is None
            &&& measurement.y is None
            &&& measurement.y_lum is None
        },
{
    lemma_outside_result(ParserView::start(red, green, blue), tokens);
}

/// Outside a `result` element no token changes the channel values or the
/// readings.
proof fn lemma_outside_result(state: ParserView, tokens: Seq<TokenView>)
    requires
        opens_no_result(tokens),
        !state.in_result,
    ensures
        state.run(tokens) matches Ok(measurement) ==> {
            &&& measurement.red == state.red
            &&& measurement.green == state.green
            &&& measurement.blue == state.blue
            &&& measurement.x == state.x
            &&& measurement.y == state.y
            &&& measurement.y_lum == state.y_lum
        },
    decreases tokens.len(),
{
    if tokens.len() > 0 && !(tokens[0] is Eof) {
        assert(!(tokens[0] is Start && tokens[0].name() == "result"@));
        match state.step(tokens[0]) {
            Ok(next) => {
                assert forall|i: int| 0 <= i < tokens.skip(1).len() implies !((
                #[trigger] tokens.skip(1)[i]) is Start && tokens.skip(1)[i].name() == "result"@) by {
                    assert(tokens.skip(1)[i] == tokens[i + 1]);
                }
                lemma_outside_result(next, tokens.skip(1));
            },
            Err(_) => {},
        }
    }
}

/// Closing a rectangle fails exactly where no color of it was read, and
/// otherwise adds the rectangle behind the shapes that are there.
pub proof fn lemma_rectangle_needs_color(state: ParserView)
    requires
        state.builder is Some,
    ensures
        state.on_end("rectangle"@) is Err <==> state.builder->0.color is None,
        state.on_end("rectangle"@) is Err ==> state.on_end("rectangle"@) == Err::<
            ParserView,
            ParseError,
        >(ParseError::IncompleteShape),
        state.on_end("rectangle"@) matches Ok(next) ==> next.builder is None && next.shapes
            == state.shapes.push(ShapeView::Rectangle(state.builder->0.build()->0)),
{
}

} // verus!
