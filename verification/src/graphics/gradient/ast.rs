//! The syntax tree of a CSS gradient, and its mathematical model: every string
//! of the tree is seen as the sequence of its characters.

use vstd::prelude::*;

verus! {

#[derive(Debug, Clone, Copy, PartialEq, Eq)]
pub enum GradientKind {
    Linear,
    RepeatingLinear,
    Radial,
    RepeatingRadial,
}

/// The CSS function name of each gradient kind.
pub open spec fn kind_name(kind: GradientKind) -> Seq<char> {
    match kind {
        GradientKind::Linear => "linear-gradient"@,
        GradientKind::RepeatingLinear => "repeating-linear-gradient"@,
        GradientKind::Radial => "radial-gradient"@,
        GradientKind::RepeatingRadial => "repeating-radial-gradient"@,
    }
}

pub open spec fn kind_is_linear(kind: GradientKind) -> bool {
    kind == GradientKind::Linear || kind == GradientKind::RepeatingLinear
}

impl GradientKind {
    pub fn as_str(&self) -> (s: &'static str)
        ensures
            s@ == kind_name(*self),
    {
        match self {
            GradientKind::Linear => "linear-gradient",
            GradientKind::RepeatingLinear => "repeating-linear-gradient",
            GradientKind::Radial => "radial-gradient",
            GradientKind::RepeatingRadial => "repeating-radial-gradient",
        }
    }

    pub fn is_linear(&self) -> (b: bool)
        ensures
            b == kind_is_linear(*self),
    {
        match self {
            GradientKind::Linear | GradientKind::RepeatingLinear => true,
            _ => false,
        }
    }
}

#[derive(Debug, Clone, PartialEq)]
pub enum LinearOrientation {
    Directional(String),
    Angular(String),
}

pub enum LinearOrientationV {
    Directional(Seq<char>),
    Angular(Seq<char>),
}

impl DeepView for LinearOrientation {
    type V = LinearOrientationV;

    open spec fn deep_view(&self) -> LinearOrientationV {
        match self {
            LinearOrientation::Directional(s) => LinearOrientationV::Directional(s@),
            LinearOrientation::Angular(s) => LinearOrientationV::Angular(s@),
        }
    }
}

#[derive(Debug, Clone, PartialEq)]
pub enum Distance {
    Percent(String),
    PositionKeyword(String),
    Calc(String),
    Px(String),
    Em(String),
}

pub enum DistanceV {
    Percent(Seq<char>),
    PositionKeyword(Seq<char>),
    Calc(Seq<char>),
    Px(Seq<char>),
    Em(Seq<char>),
}

impl DeepView for Distance {
    type V = DistanceV;

    open spec fn deep_view(&self) -> DistanceV {
        match self {
            Distance::Percent(s) => DistanceV::Percent(s@),
            Distance::PositionKeyword(s) => DistanceV::PositionKeyword(s@),
            Distance::Calc(s) => DistanceV::Calc(s@),
            Distance::Px(s) => DistanceV::Px(s@),
            Distance::Em(s) => DistanceV::Em(s@),
        }
    }
}

#[derive(Debug, Clone, PartialEq, Default)]
pub struct Position {
    pub x: Option<Distance>,
    pub y: Option<Distance>,
}

pub struct PositionV {
    pub x: Option<DistanceV>,
    pub y: Option<DistanceV>,
}

impl DeepView for Position {
    type V = PositionV;

    open spec fn deep_view(&self) -> PositionV {
        PositionV { x: self.x.deep_view(), y: self.y.deep_view() }
    }
}

#[derive(Debug, Clone, Copy, PartialEq, Eq)]
pub enum ShapeKind {
    Circle,
    Ellipse,
}

#[derive(Debug, Clone, PartialEq)]
pub enum ShapeStyle {
    Distance(Distance),
    ExtentKeyword(String),
    Position(Position),
}

pub enum ShapeStyleV {
    Distance(DistanceV),
    ExtentKeyword(Seq<char>),
    Position(PositionV),
}

impl DeepView for ShapeStyle {
    type V = ShapeStyleV;

    open spec fn deep_view(&self) -> ShapeStyleV {
        match self {
            ShapeStyle::Distance(d) => ShapeStyleV::Distance(d.deep_view()),
            ShapeStyle::ExtentKeyword(s) => ShapeStyleV::ExtentKeyword(s@),
            ShapeStyle::Position(p) => ShapeStyleV::Position(p.deep_view()),
        }
    }
}

#[derive(Debug, Clone, PartialEq)]
pub struct Shape {
    pub value: ShapeKind,
    pub style: Option<ShapeStyle>,
    pub at: Option<Position>,
}

pub struct ShapeV {
    pub value: ShapeKind,
    pub style: Option<ShapeStyleV>,
    pub at: Option<PositionV>,
}

impl DeepView for Shape {
    type V = ShapeV;

    open spec fn deep_view(&self) -> ShapeV {
        ShapeV { value: self.value, style: self.style.deep_view(), at: self.at.deep_view() }
    }
}

#[derive(Debug, Clone, PartialEq)]
pub enum RadialOrientation {
    Shape(Shape),
    ExtentKeyword { value: String, at: Option<Position> },
    DefaultRadial { at: Position },
}

pub enum RadialOrientationV {
    Shape(ShapeV),
    ExtentKeyword { value: Seq<char>, at: Option<PositionV> },
    DefaultRadial { at: PositionV },
}

impl DeepView for RadialOrientation {
    type V = RadialOrientationV;

    open spec fn deep_view(&self) -> RadialOrientationV {
        match self {
            RadialOrientation::Shape(s) => RadialOrientationV::Shape(s.deep_view()),
            RadialOrientation::ExtentKeyword { value, at } => RadialOrientationV::ExtentKeyword {
                value: value@,
                at: at.deep_view(),
            },
            RadialOrientation::DefaultRadial { at } => RadialOrientationV::DefaultRadial {
                at: at.deep_view(),
            },
        }
    }
}

#[derive(Debug, Clone, PartialEq)]
pub enum GradientOrientation {
    Linear(LinearOrientation),
    Radial(Vec<RadialOrientation>),
}

pub enum GradientOrientationV {
    Linear(LinearOrientationV),
    Radial(Seq<RadialOrientationV>),
}

impl DeepView for GradientOrientation {
    type V = GradientOrientationV;

    open spec fn deep_view(&self) -> GradientOrientationV {
        match self {
            GradientOrientation::Linear(l) => GradientOrientationV::Linear(l.deep_view()),
            GradientOrientation::Radial(list) => GradientOrientationV::Radial(list.deep_view()),
        }
    }
}

#[derive(Debug, Clone, PartialEq)]
pub enum Color {
    Hex(String),
    Literal(String),
    Rgb(Vec<String>),
    Rgba(Vec<String>),
    Hsl([String; 3]),
    Hsla([String; 4]),
    Var(String),
}

pub enum ColorV {
    Hex(Seq<char>),
    Literal(Seq<char>),
    Rgb(Seq<Seq<char>>),
    Rgba(Seq<Seq<char>>),
    Hsl(Seq<Seq<char>>),
    Hsla(Seq<Seq<char>>),
    Var(Seq<char>),
}

impl DeepView for Color {
    type V = ColorV;

    open spec fn deep_view(&self) -> ColorV {
        match self {
            Color::Hex(s) => ColorV::Hex(s@),
            Color::Literal(s) => ColorV::Literal(s@),
            Color::Rgb(v) => ColorV::Rgb(v.deep_view()),
            Color::Rgba(v) => ColorV::Rgba(v.deep_view()),
            Color::Hsl(a) => ColorV::Hsl(a.deep_view()),
            Color::Hsla(a) => ColorV::Hsla(a.deep_view()),
            Color::Var(s) => ColorV::Var(s@),
        }
    }
}

#[derive(Debug, Clone, PartialEq)]
pub struct ColorStop {
    pub color: Color,
    pub length: Option<Distance>,
}

pub struct ColorStopV {
    pub color: ColorV,
    pub length: Option<DistanceV>,
}

impl DeepView for ColorStop {
    type V = ColorStopV;

    open spec fn deep_view(&self) -> ColorStopV {
        ColorStopV { color: self.color.deep_view(), length: self.length.deep_view() }
    }
}

#[derive(Debug, Clone, PartialEq)]
pub struct GradientAst {
    pub kind: GradientKind,
    pub orientation: Option<GradientOrientation>,
    pub color_stops: Vec<ColorStop>,
}

pub struct GradientAstV {
    pub kind: GradientKind,
    pub orientation: Option<GradientOrientationV>,
    pub color_stops: Seq<ColorStopV>,
}

impl DeepView for GradientAst {
    type V = GradientAstV;

    open spec fn deep_view(&self) -> GradientAstV {
        GradientAstV {
            kind: self.kind,
            orientation: self.orientation.deep_view(),
            color_stops: self.color_stops.deep_view(),
        }
    }
}

} // verus!
