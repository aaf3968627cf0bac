//! The commands of a Gerber file, one per statement.
use vstd::prelude::*;

use crate::attribute::{AttributeNameView, FileAttributeName};
use crate::primitive::{ApertureId, Decimal, EscapedString};

verus! {

/// Unit of the coordinates.
#[derive(Clone, Copy, Debug, PartialEq, Eq, Structural)]
pub enum Unit {
    Millimeters,
    Inches,
}

/// Shape of a standard aperture template, or the macro it instantiates.
#[derive(Clone, Debug, PartialEq)]
pub enum ApertureTemplate {
    /// `C`: diameter, optional hole diameter.
    Circle(Decimal, Option<Decimal>),
    /// `R`: width, height, optional hole diameter.
    Rectangle(Decimal, Decimal, Option<Decimal>),
    /// `O`: width, height, optional hole diameter.
    Obround(Decimal, Decimal, Option<Decimal>),
    /// `P`: outer diameter, vertices, optional rotation and hole diameter.
    Polygon(Decimal, Decimal, Option<Decimal>, Option<Decimal>),
    /// A macro, by name, with its parameters.
    Macro(Vec<u8>, Vec<Decimal>),
}

/// Coordinates of an operation; a missing one keeps its current value.
#[derive(Clone, Copy, Debug, PartialEq, Eq, Structural)]
pub struct Coordinates {
    pub x: Option<i32>,
    pub y: Option<i32>,
    pub i: Option<i32>,
    pub j: Option<i32>,
}

/// Counts and pitch of a step and repeat: `columns` by `rows` copies,
/// `dx` and `dy` apart.
#[derive(Clone, Copy, Debug, PartialEq, Eq, Structural)]
pub struct StepRepeat {
    pub columns: i32,
    pub rows: i32,
    pub dx: Decimal,
    pub dy: Decimal,
}

/// Mirroring of the objects that follow.
#[derive(Clone, Copy, Debug, PartialEq, Eq, Structural)]
pub enum Mirroring {
    /// `N`: no mirroring.
    Plain,
    /// `X`: mirrored along the X axis.
    X,
    /// `Y`: mirrored along the Y axis.
    Y,
    /// `XY`: mirrored along both axes.
    XY,
}

/// Polarity of the objects that follow.
#[derive(Clone, Copy, Debug, PartialEq, Eq, Structural)]
pub enum Polarity {
    Dark,
    Clear,
}

/// Gerber commands, one variant per statement kind.
#[derive(Clone, Debug, PartialEq)]
pub enum Command {
    /// `G04`: a comment, which does not affect the image.
    Comment,
    /// `MO`: sets the unit to mm or inch.
    Mode(Unit),
    /// `FS`: sets the number of integer digits of the X and Y coordinates.
    FormatSpecification(u8, u8),
    /// `AD`: defines an aperture and assigns a D code to it.
    ApertureDefine(ApertureId, ApertureTemplate),
    /// `AM`: defines a macro aperture template: its name and its body.
    ApertureMacro(Vec<u8>, Vec<u8>),
    /// `Dnn` (nn at least 10): sets the current aperture.
    SetCurrentAperture(ApertureId),
    /// `D01`: draws, or adds a segment to the contour of a region.
    Plot(Coordinates),
    /// `D02`: moves the current point.
    Move(Coordinates),
    /// `D03`: flashes the current aperture.
    Flash(Coordinates),
    /// `G01`: linear interpolation.
    SetLinear,
    /// `G02`: clockwise circular interpolation.
    SetCWCircular,
    /// `G03`: counterclockwise circular interpolation.
    SetCCWCircular,
    /// `G75`: must come before the first arc.
    ArcInit,
    /// `LP`: loads the polarity.
    LoadPolarity(Polarity),
    /// `LM`: loads the mirroring.
    LoadMirroring(Mirroring),
    /// `LR`: loads the rotation.
    LoadRotation(Decimal),
    /// `LS`: loads the scale.
    LoadScaling(Decimal),
    /// `G36`: starts a region.
    StartRegion,
    /// `G37`: ends a region.
    EndRegion,
    /// `AB`: opens a block aperture with its number, or closes one.
    ApertureBlock(Option<ApertureId>),
    /// `SR`: opens a step and repeat with its counts and pitch, or closes one.
    StepAndRepeat(Option<StepRepeat>),
    /// `TF`: sets a file attribute to its values.
    AttributeOnFile(FileAttributeName, Vec<EscapedString>),
    /// `TA`: sets an aperture attribute, by name, to its values.
    AttributeOnAperture(Vec<u8>, Vec<EscapedString>),
    /// `TO`: sets an object attribute, by name, to its values.
    AttributeOnObject(Vec<u8>, Vec<EscapedString>),
    /// `TD`: deletes the attribute of that name, or all of them.
    AttributeDelete(Option<Vec<u8>>),
    /// `M02`: end of file.
    EndOfFile,
}

/// An aperture template as a value.
pub enum TemplateView {
    Circle(Decimal, Option<Decimal>),
    Rectangle(Decimal, Decimal, Option<Decimal>),
    Obround(Decimal, Decimal, Option<Decimal>),
    Polygon(Decimal, Decimal, Option<Decimal>, Option<Decimal>),
    Macro(Seq<u8>, Seq<Decimal>),
}

impl ApertureTemplate {
    /// The template as a value.
    pub open spec fn view(&self) -> TemplateView {
        match self {
            ApertureTemplate::Circle(d, h) => TemplateView::Circle(*d, *h),
            ApertureTemplate::Rectangle(w, h, o) => TemplateView::Rectangle(*w, *h, *o),
            ApertureTemplate::Obround(w, h, o) => TemplateView::Obround(*w, *h, *o),
            ApertureTemplate::Polygon(d, v, r, h) => TemplateView::Polygon(*d, *v, *r, *h),
            ApertureTemplate::Macro(n, ps) => TemplateView::Macro(n@, ps@),
        }
    }
}

/// The texts of attribute values.
pub open spec fn value_texts(values: Seq<EscapedString>) -> Seq<Seq<u8>> {
    values.map_values(|v: EscapedString| v.raw())
}

/// A command as a value: byte strings stand as sequences, attribute values
/// as their texts.
pub enum CommandView {
    Comment,
    Mode(Unit),
    FormatSpecification(u8, u8),
    ApertureDefine(ApertureId, TemplateView),
    ApertureMacro(Seq<u8>, Seq<u8>),
    SetCurrentAperture(ApertureId),
    Plot(Coordinates),
    Move(Coordinates),
    Flash(Coordinates),
    SetLinear,
    SetCWCircular,
    SetCCWCircular,
    ArcInit,
    LoadPolarity(Polarity),
    LoadMirroring(Mirroring),
    LoadRotation(Decimal),
    LoadScaling(Decimal),
    StartRegion,
    EndRegion,
    ApertureBlock(Option<ApertureId>),
    StepAndRepeat(Option<StepRepeat>),
    AttributeOnFile(AttributeNameView, Seq<Seq<u8>>),
    AttributeOnAperture(Seq<u8>, Seq<Seq<u8>>),
    AttributeOnObject(Seq<u8>, Seq<Seq<u8>>),
    AttributeDelete(Option<Seq<u8>>),
    EndOfFile,
}

impl Command {
    /// The command as a value.
    pub open spec fn view(&self) -> CommandView {
        match self {
            Command::Comment => CommandView::Comment,
            Command::Mode(u) => CommandView::Mode(*u),
            Command::FormatSpecification(x, y) => CommandView::FormatSpecification(*x, *y),
            Command::ApertureDefine(id, t) => CommandView::ApertureDefine(*id, t.view()),
            Command::ApertureMacro(n, b) => CommandView::ApertureMacro(n@, b@),
            Command::SetCurrentAperture(id) => CommandView::SetCurrentAperture(*id),
            Command::Plot(c) => CommandView::Plot(*c),
            Command::Move(c) => CommandView::Move(*c),
            Command::Flash(c) => CommandView::Flash(*c),
            Command::SetLinear => CommandView::SetLinear,
            Command::SetCWCircular => CommandView::SetCWCircular,
            Command::SetCCWCircular => CommandView::SetCCWCircular,
            Command::ArcInit => CommandView::ArcInit,
            Command::LoadPolarity(p) => CommandView::LoadPolarity(*p),
            Command::LoadMirroring(m) => CommandView::LoadMirroring(*m),
            Command::LoadRotation(d) => CommandView::LoadRotation(*d),
            Command::LoadScaling(d) => CommandView::LoadScaling(*d),
            Command::StartRegion => CommandView::StartRegion,
            Command::EndRegion => CommandView::EndRegion,
            Command::ApertureBlock(id) => CommandView::ApertureBlock(*id),
            Command::StepAndRepeat(g) => CommandView::StepAndRepeat(*g),
            Command::AttributeOnFile(a, vs) => CommandView::AttributeOnFile(a.view(), value_texts(vs@)),
            Command::AttributeOnAperture(n, vs) => CommandView::AttributeOnAperture(
                n@,
                value_texts(vs@),
            ),
            Command::AttributeOnObject(n, vs) => CommandView::AttributeOnObject(n@, value_texts(vs@)),
            Command::AttributeDelete(n) => CommandView::AttributeDelete(
                match n {
                    Some(v) => Some(v@),
                    None => None,
                },
            ),
            Command::EndOfFile => CommandView::EndOfFile,
        }
    }
}

/// The view of a parse result: the command as a value and the length.
pub open spec fn parsed(r: Option<(Command, usize)>) -> Option<(CommandView, int)> {
    match r {
        Some((c, n)) => Some((c.view(), n as int)),
        None => None,
    }
}

} // verus!
