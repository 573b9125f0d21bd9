//! Assembling one rectangle from the attributes of the `color` and
//! `geometry` elements inside a `rectangle` element.

use vstd::prelude::*;
use crate::color::ColorRGB;
use crate::literal::{is_real_literal, RealLiteral};
use crate::number::{parse_u16, parse_u8, parse_unsigned};
use crate::shape::{GeometryView, RectangleGeometry, RectangleShape, RectangleView};
use crate::text::str_equal;
use crate::xml::{AttributeView, XmlAttribute};

verus! {

/// The last of `items` that holds a value.
pub open spec fn last_some<T>(items: Seq<Option<T>>) -> Option<T>
    decreases items.len(),
{
    if items.len() == 0 {
        None
    } else if items.last() is Some {
        items.last()
    } else {
        last_some(items.drop_last())
    }
}

/// The first of `items` that holds a value.
pub open spec fn first_some<T>(items: Seq<Option<T>>) -> Option<T>
    decreases items.len(),
{
    if items.len() == 0 {
        None
    } else if first_some(items.drop_last()) is Some {
        first_some(items.drop_last())
    } else {
        items.last()
    }
}

/// The channel value that `attribute` gives under `key`: it is readable, has
/// that key, and its value is a sixteen-bit unsigned decimal integer.
pub open spec fn channel_of(attribute: Option<AttributeView>, key: Seq<char>) -> Option<u16> {
    match attribute {
        Some(a) => if a.key == key && parse_unsigned(a.value, 0xFFFF) is Some {
            Some(parse_unsigned(a.value, 0xFFFF)->0 as u16)
        } else {
            None
        },
        None => None,
    }
}

/// Whether `key` names the bit depth of a color.
pub open spec fn is_depth_key(key: Seq<char>) -> bool {
    key == "bits"@ || key == "depth"@ || key == "bitDepth"@
}

/// The bit depth that `attribute` gives: it is readable, has one of the
/// depth keys, and its value is an eight-bit unsigned decimal integer.
pub open spec fn depth_of(attribute: Option<AttributeView>) -> Option<u8> {
    match attribute {
        Some(a) => if is_depth_key(a.key) && parse_unsigned(a.value, 0xFF) is Some {
            Some(parse_unsigned(a.value, 0xFF)->0 as u8)
        } else {
            None
        },
        None => None,
    }
}

/// The size that `attribute` gives under `key`: it is readable, has that key,
/// and its value denotes a real number.
pub open spec fn size_under(attribute: Option<AttributeView>, key: Seq<char>) -> Option<Seq<char>> {
    match attribute {
        Some(a) => if a.key == key && is_real_literal(a.value) {
            Some(a.value)
        } else {
            None
        },
        None => None,
    }
}

/// The value of the last attribute that gives a channel value under `key`.
pub open spec fn last_channel(attributes: Seq<Option<AttributeView>>, key: Seq<char>) -> Option<
    u16,
> {
    last_some(attributes.map_values(|a: Option<AttributeView>| channel_of(a, key)))
}

/// The value of the last attribute that gives a bit depth.
pub open spec fn last_depth(attributes: Seq<Option<AttributeView>>) -> Option<u8> {
    last_some(attributes.map_values(|a: Option<AttributeView>| depth_of(a)))
}

/// The value of the last attribute that gives a size under `key`.
pub open spec fn last_size(attributes: Seq<Option<AttributeView>>, key: Seq<char>) -> Option<
    Seq<char>,
> {
    last_some(attributes.map_values(|a: Option<AttributeView>| size_under(a, key)))
}

/// The value of the first attribute that gives a size under `key`.
pub open spec fn first_size(attributes: Seq<Option<AttributeView>>, key: Seq<char>) -> Option<
    Seq<char>,
> {
    first_some(attributes.map_values(|a: Option<AttributeView>| size_under(a, key)))
}

/// The color of a rectangle after a color element with `attributes`.
///
/// Each channel takes the last value that the element gives for it and keeps
/// its earlier value where the element gives none; so does the bit depth. An
/// element that gives no channel value at all changes nothing, whatever it
/// says of the bit depth. Before the first channel value the color is black
/// at eight bits.
pub open spec fn colored(previous: Option<ColorRGB>, attributes: Seq<Option<AttributeView>>)
    -> Option<ColorRGB> {
    let base = match previous {
        Some(color) => color,
        None => ColorRGB { red: 0, green: 0, blue: 0, depth_bits: 8 },
    };
    let red = last_channel(attributes, "red"@);
    let green = last_channel(attributes, "green"@);
    let blue = last_channel(attributes, "blue"@);
    let depth = last_depth(attributes);
    if red is Some || green is Some || blue is Some {
        Some(
            ColorRGB {
                red: if red is Some { red->0 } else { base.red },
                green: if green is Some { green->0 } else { base.green },
                blue: if blue is Some { blue->0 } else { base.blue },
                depth_bits: if depth is Some { depth->0 } else { base.depth_bits },
            },
        )
    } else {
        previous
    }
}

/// One size of a rectangle after a geometry element with `attributes`.
///
/// The attribute under `center_key` wins: the last of them that gives a size
/// sets it. Without one, a size that is already set stays; only a size that
/// is not yet set takes the first value given under `corner_key`.
pub open spec fn sized(
    previous: Option<Seq<char>>,
    attributes: Seq<Option<AttributeView>>,
    center_key: Seq<char>,
    corner_key: Seq<char>,
) -> Option<Seq<char>> {
    if last_size(attributes, center_key) is Some {
        last_size(attributes, center_key)
    } else if previous is Some {
        previous
    } else {
        first_size(attributes, corner_key)
    }
}

/// A size that an element gives under the center key is the size after the
/// element, whatever was there before and whatever the element gives under
/// the corner key.
pub proof fn lemma_center_size_wins(
    previous: Option<Seq<char>>,
    attributes: Seq<Option<AttributeView>>,
    center_key: Seq<char>,
    corner_key: Seq<char>,
)
    requires
        last_size(attributes, center_key) is Some,
    ensures
        sized(previous, attributes, center_key, corner_key) == last_size(attributes, center_key),
{
}

/// A size under the corner key never replaces a size that is already set.
pub proof fn lemma_corner_size_yields(
    previous: Seq<char>,
    attributes: Seq<Option<AttributeView>>,
    center_key: Seq<char>,
    corner_key: Seq<char>,
)
    requires
        last_size(attributes, center_key) is None,
    ensures
        sized(Some(previous), attributes, center_key, corner_key) == Some(previous),
{
}

/// What a [`RectangleBuilder`] stands for.
pub struct BuilderView {
    pub color: Option<ColorRGB>,
    pub width: Option<Seq<char>>,
    pub height: Option<Seq<char>>,
}

impl BuilderView {
    /// The builder of a rectangle of which nothing is known yet.
    pub open spec fn empty() -> BuilderView {
        BuilderView { color: None, width: None, height: None }
    }

    /// The builder after a color element with `attributes`.
    pub open spec fn with_color(self, attributes: Seq<Option<AttributeView>>) -> BuilderView {
        BuilderView { color: colored(self.color, attributes), ..self }
    }

    /// The builder after a geometry element with `attributes`.
    pub open spec fn with_geometry(self, attributes: Seq<Option<AttributeView>>) -> BuilderView {
        BuilderView {
            width: sized(self.width, attributes, "cx"@, "x"@),
            height: sized(self.height, attributes, "cy"@, "y"@),
            ..self
        }
    }

    /// The finished rectangle: none without a color; a size that was never
    /// set is the full extent, `1.0`.
    pub open spec fn build(self) -> Option<RectangleView> {
        match self.color {
            None => None,
            Some(color) => Some(
                RectangleView {
                    color,
                    geometry: GeometryView {
                        width: match self.width {
                            Some(width) => width,
                            None => seq!['1', '.', '0'],
                        },
                        height: match self.height {
                            Some(height) => height,
                            None => seq!['1', '.', '0'],
                        },
                    },
                },
            ),
        }
    }
}

/// A rectangle can be finished exactly where a color of it was read, and a
/// size that was never set is the full extent.
pub proof fn lemma_build(builder: BuilderView)
    ensures
        builder.build() is Some <==> builder.color is Some,
        builder.build() matches Some(rectangle) ==> {
            &&& rectangle.color == builder.color->0
            &&& builder.width is None ==> rectangle.geometry.width == seq!['1', '.', '0']
            &&& builder.height is None ==> rectangle.geometry.height == seq!['1', '.', '0']
            &&& builder.width matches Some(width) ==> rectangle.geometry.width == width
            &&& builder.height matches Some(height) ==> rectangle.geometry.height == height
        },
{
}

/// The parts of a rectangle that have been read so far.
#[derive(Clone, Debug, PartialEq, Eq)]
pub struct RectangleBuilder {
    pub color: Option<ColorRGB>,
    pub width: Option<RealLiteral>,
    pub height: Option<RealLiteral>,
}

impl View for RectangleBuilder {
    type V = BuilderView;

    open spec fn view(&self) -> BuilderView {
        BuilderView {
            color: self.color,
            width: self.width.deep_view(),
            height: self.height.deep_view(),
        }
    }
}

impl DeepView for RectangleBuilder {
    type V = BuilderView;

    open spec fn deep_view(&self) -> BuilderView {
        self@
    }
}

/// The first value among `items` followed by one more item.
proof fn lemma_first_some_push<T>(items: Seq<Option<T>>, next: Option<T>)
    ensures
        first_some(items.push(next)) == if first_some(items) is Some {
            first_some(items)
        } else {
            next
        },
{
    assert(items.push(next).drop_last() =~= items);
}

/// The last value among `items` followed by one more item.
proof fn lemma_last_some_push<T>(items: Seq<Option<T>>, next: Option<T>)
    ensures
        last_some(items.push(next)) == if next is Some {
            next
        } else {
            last_some(items)
        },
{
    assert(items.push(next).drop_last() =~= items);
}

/// Reading one attribute more extends the list of what each attribute gives
/// by what that attribute gives.
proof fn lemma_map_take_push<T>(
    attributes: Seq<Option<AttributeView>>,
    f: spec_fn(Option<AttributeView>) -> Option<T>,
    i: int,
)
    requires
        0 <= i < attributes.len(),
    ensures
        attributes.take(i + 1).map_values(f) == attributes.take(i).map_values(f).push(
            f(attributes[i]),
        ),
{
    assert(attributes.take(i + 1).map_values(f) =~= attributes.take(i).map_values(f).push(
        f(attributes[i]),
    ));
}

impl RectangleBuilder {
    /// The builder of a rectangle of which nothing is known yet.
    pub fn new() -> (builder: Self)
        ensures
            builder@ == BuilderView::empty(),
    {
        RectangleBuilder { color: None, width: None, height: None }
    }

    /// Takes in the attributes of a color element.
    pub fn apply_color(&mut self, attributes: &Vec<Option<XmlAttribute>>)
        ensures
            final(self)@ == old(self)@.with_color(attributes.deep_view()),
    {
        let ghost all = attributes.deep_view();
        let ghost reds = |a: Option<AttributeView>| channel_of(a, "red"@);
        let ghost greens = |a: Option<AttributeView>| channel_of(a, "green"@);
        let ghost blues = |a: Option<AttributeView>| channel_of(a, "blue"@);
        let ghost depths = |a: Option<AttributeView>| depth_of(a);
        let mut red: Option<u16> = None;
        let mut green: Option<u16> = None;
        let mut blue: Option<u16> = None;
        let mut depth: Option<u8> = None;
        let mut i: usize = 0;
        assert(all.take(0).map_values(reds) =~= Seq::empty());
        assert(all.take(0).map_values(greens) =~= Seq::empty());
        assert(all.take(0).map_values(blues) =~= Seq::empty());
        assert(all.take(0).map_values(depths) =~= Seq::empty());
        while i < attributes.len()
            invariant
                i <= attributes.len(),
                all == attributes.deep_view(),
                reds == |a: Option<AttributeView>| channel_of(a, "red"@),
                greens == |a: Option<AttributeView>| channel_of(a, "green"@),
                blues == |a: Option<AttributeView>| channel_of(a, "blue"@),
                depths == |a: Option<AttributeView>| depth_of(a),
                red == last_some(all.take(i as int).map_values(reds)),
                green == last_some(all.take(i as int).map_values(greens)),
                blue == last_some(all.take(i as int).map_values(blues)),
                depth == last_some(all.take(i as int).map_values(depths)),
            decreases attributes.len() - i,
        {
            proof {
                lemma_map_take_push(all, reds, i as int);
                lemma_map_take_push(all, greens, i as int);
                lemma_map_take_push(all, blues, i as int);
                lemma_map_take_push(all, depths, i as int);
                lemma_last_some_push(all.take(i as int).map_values(reds), reds(all[i as int]));
                lemma_last_some_push(all.take(i as int).map_values(greens), greens(all[i as int]));
                lemma_last_some_push(all.take(i as int).map_values(blues), blues(all[i as int]));
                lemma_last_some_push(all.take(i as int).map_values(depths), depths(all[i as int]));
            }
            match &attributes[i] {
                Some(attribute) => {
                    let key = attribute.key.as_str();
                    let value = attribute.value.as_str();
                    if str_equal(key, "bits") || str_equal(key, "depth") || str_equal(
                        key,
                        "bitDepth",
                    ) {
                        match parse_u8(value) {
                            Some(v) => {
                                depth = Some(v);
                            },
                            None => {},
                        }
                    }
                    if str_equal(key, "red") {
                        match parse_u16(value) {
                            Some(v) => {
                                red = Some(v);
                            },
                            None => {},
                        }
                    }
                    if str_equal(key, "green") {
                        match parse_u16(value) {
                            Some(v) => {
                                green = Some(v);
                            },
                            None => {},
                        }
                    }
                    if str_equal(key, "blue") {
                        match parse_u16(value) {
                            Some(v) => {
                                blue = Some(v);
                            },
                            None => {},
                        }
                    }
                },
                None => {},
            }
            i = i + 1;
        }
        assert(all.take(i as int) =~= all);
        if red.is_some() || green.is_some() || blue.is_some() {
            let base = match self.color {
                Some(color) => color,
                None => ColorRGB::default(),
            };
            self.color = Some(
                ColorRGB {
                    red: match red {
                        Some(v) => v,
                        None => base.red,
                    },
                    green: match green {
                        Some(v) => v,
                        None => base.green,
                    },
                    blue: match blue {
                        Some(v) => v,
                        None => base.blue,
                    },
                    depth_bits: match depth {
                        Some(v) => v,
                        None => base.depth_bits,
                    },
                },
            );
        }
    }

    /// Takes in the attributes of a geometry element.
    pub fn apply_geometry(&mut self, attributes: &Vec<Option<XmlAttribute>>)
        ensures
            final(self)@ == old(self)@.with_geometry(attributes.deep_view()),
    {
        let ghost all = attributes.deep_view();
        let ghost center_x = |a: Option<AttributeView>| size_under(a, "cx"@);
        let ghost center_y = |a: Option<AttributeView>| size_under(a, "cy"@);
        let ghost corner_x = |a: Option<AttributeView>| size_under(a, "x"@);
        let ghost corner_y = |a: Option<AttributeView>| size_under(a, "y"@);
        let mut cx: Option<RealLiteral> = None;
        let mut cy: Option<RealLiteral> = None;
        let mut x: Option<RealLiteral> = None;
        let mut y: Option<RealLiteral> = None;
        let mut i: usize = 0;
        assert(all.take(0).map_values(center_x) =~= Seq::empty());
        assert(all.take(0).map_values(center_y) =~= Seq::empty());
        assert(all.take(0).map_values(corner_x) =~= Seq::empty());
        assert(all.take(0).map_values(corner_y) =~= Seq::empty());
        while i < attributes.len()
            invariant
                i <= attributes.len(),
                all == attributes.deep_view(),
                center_x == |a: Option<AttributeView>| size_under(a, "cx"@),
                center_y == |a: Option<AttributeView>| size_under(a, "cy"@),
                corner_x == |a: Option<AttributeView>| size_under(a, "x"@),
                corner_y == |a: Option<AttributeView>| size_under(a, "y"@),
                cx.deep_view() == last_some(all.take(i as int).map_values(center_x)),
                cy.deep_view() == last_some(all.take(i as int).map_values(center_y)),
                x.deep_view() == first_some(all.take(i as int).map_values(corner_x)),
                y.deep_view() == first_some(all.take(i as int).map_values(corner_y)),
            decreases attributes.len() - i,
        {
            proof {
                lemma_map_take_push(all, center_x, i as int);
                lemma_map_take_push(all, center_y, i as int);
                lemma_map_take_push(all, corner_x, i as int);
                lemma_map_take_push(all, corner_y, i as int);
                lemma_last_some_push(
                    all.take(i as int).map_values(center_x),
                    center_x(all[i as int]),
                );
                lemma_last_some_push(
                    all.take(i as int).map_values(center_y),
                    center_y(all[i as int]),
                );
                lemma_first_some_push(
                    all.take(i as int).map_values(corner_x),
                    corner_x(all[i as int]),
                );
                lemma_first_some_push(
                    all.take(i as int).map_values(corner_y),
                    corner_y(all[i as int]),
                );
            }
            match &attributes[i] {
                Some(attribute) => {
                    let key = attribute.key.as_str();
                    let value = attribute.value.as_str();
                    if str_equal(key, "cx") {
                        match RealLiteral::parse(value) {
                            Some(size) => {
                                cx = Some(size);
                            },
                            None => {},
                        }
                    }
                    if str_equal(key, "cy") {
                        match RealLiteral::parse(value) {
                            Some(size) => {
                                cy = Some(size);
                            },
                            None => {},
                        }
                    }
                    if x.is_none() && str_equal(key, "x") {
                        x = RealLiteral::parse(value);
                    }
                    if y.is_none() && str_equal(key, "y") {
                        y = RealLiteral::parse(value);
                    }
                },
                None => {},
            }
            i = i + 1;
        }
        assert(all.take(i as int) =~= all);
        if cx.is_some() {
            self.width = cx;
        } else if self.width.is_none() {
            self.width = x;
        }
        if cy.is_some() {
            self.height = cy;
        } else if self.height.is_none() {
            self.height = y;
        }
    }

    /// Finishes the rectangle: `None` where no color was ever read; a size
    /// that was never set is the full extent.
    pub fn build(self) -> (rectangle: Option<RectangleShape>)
        ensures
            rectangle.deep_view() == self@.build(),
    {
        let color = match self.color {
            Some(color) => color,
            None => {
                return None;
            },
        };
        let width = match self.width {
            Some(width) => width,
            None => RealLiteral::one(),
        };
        let height = match self.height {
            Some(height) => height,
            None => RealLiteral::one(),
        };
        Some(RectangleShape { color, geometry: RectangleGeometry { width, height } })
    }
}

} // verus!
