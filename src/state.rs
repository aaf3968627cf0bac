//! The modal graphics state machine: it consumes the commands of a file in
//! order, keeps the modal parameters that they set, and builds the scene of
//! graphical objects.
use vstd::prelude::*;

use crate::attribute::{same_bytes, FileAttributeName};
use crate::command::{ApertureTemplate, Command, Coordinates, Mirroring, Polarity, StepRepeat, Unit};
use crate::primitive::{ApertureId, Decimal, EscapedString};
use crate::template::{
    evaluate, parse_template, spec_evaluate, spec_template, EvalError, MacroStatement, ShapeInstance,
};

verus! {

/// Deepest nesting of aperture blocks.
pub const MAX_BLOCK_DEPTH: usize = 64;

/// How a plot joins the current point to its end point.
#[derive(Clone, Copy, Debug, PartialEq, Eq, Structural)]
pub enum Interpolation {
    Linear,
    Clockwise,
    CounterClockwise,
}

/// The object transformation in effect when an object is created.
#[derive(Clone, Copy, Debug, PartialEq, Eq, Structural)]
pub struct Transform {
    pub polarity: Polarity,
    pub mirroring: Mirroring,
    pub rotation: Option<Decimal>,
    pub scaling: Option<Decimal>,
}

/// A graphical object of the scene.
#[derive(Debug)]
pub enum GraphicObject {
    /// The aperture stamped at a point; the shapes of a macro aperture.
    Flash {
        aperture: ApertureId,
        at: (i32, i32),
        transform: Transform,
        shapes: Vec<ShapeInstance>,
    },
    /// A draw or an arc from one point to another, stroked with an aperture.
    Stroke {
        aperture: ApertureId,
        from: (i32, i32),
        to: (i32, i32),
        center_offset: (i32, i32),
        mode: Interpolation,
        transform: Transform,
    },
    /// A filled region bounded by its contours; each contour is closed by
    /// joining its last point to its first.
    Region { contours: Vec<Vec<(i32, i32)>>, transform: Transform },
    /// Content to be placed once per column and row of a grid, at the
    /// pitch of the grid, with the transformation in effect when it opened.
    StepAndRepeat { grid: StepRepeat, transform: Transform, content: Vec<GraphicObject> },
}

/// What an aperture number stands for.
#[derive(Debug)]
pub enum Aperture {
    /// A standard template or a macro instantiation.
    Template(ApertureTemplate),
    /// The objects of an aperture block.
    Block(Vec<GraphicObject>),
}

/// The class of a state machine error.
#[derive(Clone, Copy, Debug, PartialEq, Eq, Structural)]
pub enum ErrorKind {
    /// A construct opened, closed or nested out of place, or a command out
    /// of order.
    Structure,
    /// A name or a number that was never defined.
    Reference,
    /// Something set again that may be set once.
    Redefinition,
    /// A macro that could not be evaluated.
    Evaluation,
    /// A macro body that does not parse.
    Syntax,
}

/// Why a command sequence does not describe a valid image.
#[derive(Clone, Copy, Debug, PartialEq, Eq, Structural)]
pub enum StateError {
    /// The unit was set a second time.
    UnitRedefined,
    /// The coordinate format was set again after objects were created.
    FormatRedefined,
    /// A coordinate came before the coordinate format.
    FormatMissing,
    /// The aperture number is defined already.
    ApertureRedefined(ApertureId),
    /// The macro name is defined already.
    MacroRedefined,
    /// The body of a macro does not parse.
    MacroSyntax,
    /// The aperture with this number refers to a macro that is not defined.
    UnknownMacro(ApertureId),
    /// The aperture number was never defined.
    UnknownAperture(ApertureId),
    /// An operation needs a current aperture and there is none.
    NoCurrentAperture,
    /// A circular mode came before the arc initialisation.
    ArcNotInitialized,
    /// A region was started inside a region.
    NestedRegion,
    /// A region was ended with none open.
    RegionNotOpen,
    /// A flash inside a region.
    FlashInRegion,
    /// A block was closed with none open.
    BlockNotOpen,
    /// Blocks are nested deeper than the bound.
    BlocksTooDeep,
    /// A step and repeat was opened inside another.
    NestedStepAndRepeat,
    /// A step and repeat was closed with none open.
    StepAndRepeatNotOpen,
    /// A region, a block or a step and repeat is still open at the end.
    UnclosedAtEnd,
    /// The commands end without the end of file.
    MissingEndOfFile,
    /// Commands follow the end of file.
    AfterEndOfFile,
    /// A macro aperture could not be evaluated at a flash.
    Evaluation(EvalError),
}

impl StateError {
    /// The class of the error.
    pub open spec fn spec_kind(self) -> ErrorKind {
        match self {
            StateError::UnitRedefined | StateError::FormatRedefined
            | StateError::ApertureRedefined(_) | StateError::MacroRedefined => ErrorKind::Redefinition,
            StateError::UnknownMacro(_) | StateError::UnknownAperture(_)
            | StateError::NoCurrentAperture => ErrorKind::Reference,
            StateError::Evaluation(_) => ErrorKind::Evaluation,
            StateError::MacroSyntax => ErrorKind::Syntax,
            _ => ErrorKind::Structure,
        }
    }

    /// The class of the error.
    pub fn kind(&self) -> (r: ErrorKind)
        ensures
            r == self.spec_kind(),
    {
        match self {
            StateError::UnitRedefined | StateError::FormatRedefined
            | StateError::ApertureRedefined(_) | StateError::MacroRedefined => ErrorKind::Redefinition,
            StateError::UnknownMacro(_) | StateError::UnknownAperture(_)
            | StateError::NoCurrentAperture => ErrorKind::Reference,
            StateError::Evaluation(_) => ErrorKind::Evaluation,
            StateError::MacroSyntax => ErrorKind::Syntax,
            _ => ErrorKind::Structure,
        }
    }
}

/// The modal graphics state, and the scene built so far.
#[derive(Debug)]
pub struct GraphicsState {
    pub unit: Option<Unit>,
    pub format: Option<(u8, u8)>,
    pub point: (i32, i32),
    pub aperture: Option<ApertureId>,
    pub interpolation: Interpolation,
    pub arc_initialized: bool,
    pub polarity: Polarity,
    pub mirroring: Mirroring,
    pub rotation: Option<Decimal>,
    pub scaling: Option<Decimal>,
    pub in_region: bool,
    pub contours: Vec<Vec<(i32, i32)>>,
    pub apertures: Vec<(ApertureId, Aperture)>,
    pub macros: Vec<(Vec<u8>, Vec<MacroStatement>)>,
    pub blocks: Vec<(ApertureId, Vec<GraphicObject>)>,
    pub step_repeat: Option<(StepRepeat, Transform, Vec<GraphicObject>)>,
    pub file_attributes: Vec<(FileAttributeName, Vec<EscapedString>)>,
    pub aperture_attributes: Vec<(Vec<u8>, Vec<EscapedString>)>,
    pub object_attributes: Vec<(Vec<u8>, Vec<EscapedString>)>,
    pub created: bool,
    pub scene: Vec<GraphicObject>,
    pub finished: bool,
}

/// The aperture number `id` is defined in `aps`.
pub open spec fn defined(aps: Seq<(ApertureId, Aperture)>, id: ApertureId) -> bool {
    exists|i: int| 0 <= i < aps.len() && (#[trigger] aps[i]).0 == id
}

/// The macro `name` is defined in `ms`.
pub open spec fn macro_defined(ms: Seq<(Vec<u8>, Vec<MacroStatement>)>, name: Seq<u8>) -> bool {
    exists|i: int| 0 <= i < ms.len() && (#[trigger] ms[i]).0@ == name
}

/// An aperture number is open as a block in `bs`.
pub open spec fn block_open(bs: Seq<(ApertureId, Vec<GraphicObject>)>, id: ApertureId) -> bool {
    exists|i: int| 0 <= i < bs.len() && (#[trigger] bs[i]).0 == id
}

impl GraphicsState {
    /// The state before the first command.
    pub open spec fn is_initial(&self) -> bool {
        &&& self.unit is None
        &&& self.format is None
        &&& self.aperture is None
        &&& self.interpolation == Interpolation::Linear
        &&& !self.arc_initialized
        &&& self.polarity == Polarity::Dark
        &&& !self.in_region
        &&& self.apertures@.len() == 0
        &&& self.macros@.len() == 0
        &&& self.blocks@.len() == 0
        &&& self.step_repeat is None
        &&& self.file_attributes@.len() == 0
        &&& self.aperture_attributes@.len() == 0
        &&& self.object_attributes@.len() == 0
        &&& !self.created
        &&& self.scene@.len() == 0
        &&& !self.finished
    }

    /// Where new objects go: the innermost open block, else the open step
    /// and repeat, else the scene.
    pub open spec fn targets(&self) -> Seq<GraphicObject> {
        if self.blocks@.len() > 0 {
            self.blocks@.last().1@
        } else {
            match self.step_repeat {
                Some((_, _, content)) => content@,
                None => self.scene@,
            }
        }
    }

    /// A flash of the aperture numbered `id` has what it needs: if the
    /// aperture instantiates a macro, the macro is defined and evaluates with
    /// the aperture's parameters.
    pub open spec fn flash_evaluates(&self, id: ApertureId) -> bool {
        forall|k: int|
            0 <= k < self.apertures@.len() && (#[trigger] self.apertures@[k]).0 == id ==> match self.apertures@[k].1 {
                Aperture::Template(ApertureTemplate::Macro(name, ps)) => {
                    &&& macro_defined(self.macros@, name@)
                    &&& ps@.len() <= u32::MAX
                    &&& forall|m: int|
                        0 <= m < self.macros@.len() && (#[trigger] self.macros@[m]).0@ == name@
                            ==> spec_evaluate(self.macros@[m].1@, ps@) is Ok
                },
                _ => true,
            }
    }

    /// `self` has the region mode, the current aperture, the unit and the
    /// format of `other`.
    pub open spec fn same_modes(&self, other: &GraphicsState) -> bool {
        &&& self.in_region == other.in_region
        &&& self.aperture == other.aperture
        &&& self.unit == other.unit
        &&& self.format == other.format
    }

    /// The current aperture, if any, is defined, and no block is nested
    /// deeper than the bound.
    pub open spec fn wf(&self) -> bool {
        &&& (self.aperture matches Some(id) ==> defined(self.apertures@, id))
        &&& self.blocks@.len() <= MAX_BLOCK_DEPTH
    }

    /// The state before the first command.
    pub fn new() -> (r: GraphicsState)
        ensures
            r.is_initial(),
            r.wf(),
    {
        GraphicsState {
            unit: None,
            format: None,
            point: (0, 0),
            aperture: None,
            interpolation: Interpolation::Linear,
            arc_initialized: false,
            polarity: Polarity::Dark,
            mirroring: Mirroring::Plain,
            rotation: None,
            scaling: None,
            in_region: false,
            contours: Vec::new(),
            apertures: Vec::new(),
            macros: Vec::new(),
            blocks: Vec::new(),
            step_repeat: None,
            file_attributes: Vec::new(),
            aperture_attributes: Vec::new(),
            object_attributes: Vec::new(),
            created: false,
            scene: Vec::new(),
            finished: false,
        }
    }

    /// Whether the aperture number is defined.
    fn find_aperture(&self, id: ApertureId) -> (r: Option<usize>)
        ensures
            r is Some <==> defined(self.apertures@, id),
            r matches Some(i) ==> i < self.apertures@.len() && self.apertures@[i as int].0 == id,
    {
        let mut i: usize = 0;
        while i < self.apertures.len()
            invariant
                i <= self.apertures@.len(),
                forall|j: int| 0 <= j < i ==> (#[trigger] self.apertures@[j]).0 != id,
            decreases self.apertures@.len() - i,
        {
            if self.apertures[i].0 == id {
                return Some(i);
            }
            i += 1;
        }
        None
    }

    /// Where the macro named `name` is defined.
    fn find_macro(&self, name: &[u8]) -> (r: Option<usize>)
        ensures
            r is Some <==> macro_defined(self.macros@, name@),
            r matches Some(i) ==> i < self.macros@.len() && self.macros@[i as int].0@ == name@,
    {
        let mut i: usize = 0;
        while i < self.macros.len()
            invariant
                i <= self.macros@.len(),
                forall|j: int| 0 <= j < i ==> (#[trigger] self.macros@[j]).0@ != name@,
            decreases self.macros@.len() - i,
        {
            if same_bytes(self.macros[i].0.as_slice(), name) {
                return Some(i);
            }
            i += 1;
        }
        None
    }

    /// Whether a block with the number is open.
    fn block_is_open(&self, id: ApertureId) -> (r: bool)
        ensures
            r == block_open(self.blocks@, id),
    {
        let mut i: usize = 0;
        while i < self.blocks.len()
            invariant
                i <= self.blocks@.len(),
                forall|j: int| 0 <= j < i ==> (#[trigger] self.blocks@[j]).0 != id,
            decreases self.blocks@.len() - i,
        {
            if self.blocks[i].0 == id {
                return true;
            }
            i += 1;
        }
        false
    }

    /// Adds an object to the innermost open block, else to the open step and
    /// repeat, else to the scene.
    fn emit(&mut self, obj: GraphicObject)
        requires
            old(self).wf(),
        ensures
            final(self).wf(),
            final(self).created,
            final(self).apertures@ == old(self).apertures@,
            final(self).blocks@.len() == old(self).blocks@.len(),
            forall|i: int| 0 <= i < old(self).blocks@.len() ==> (#[trigger] final(self).blocks@[i]).0
                == old(self).blocks@[i].0,
            final(self).step_repeat is Some == old(self).step_repeat is Some,
            final(self).aperture == old(self).aperture,
            final(self).in_region == old(self).in_region,
            final(self).unit == old(self).unit,
            final(self).format == old(self).format,
            final(self).finished == old(self).finished,
            final(self).point == old(self).point,
            final(self).macros@ == old(self).macros@,
            final(self).targets() == old(self).targets().push(obj),
    {
        self.created = true;
        if self.blocks.len() > 0 {
            let ghost before = self.blocks@;
            let mut b = self.blocks.pop().unwrap();
            b.1.push(obj);
            self.blocks.push(b);
            assert(forall|i: int| 0 <= i < before.len() - 1 ==> self.blocks@[i] == before[i]);
        } else if self.step_repeat.is_some() {
            let (grid, transform, mut content) = self.step_repeat.take().unwrap();
            content.push(obj);
            self.step_repeat = Some((grid, transform, content));
        } else {
            self.scene.push(obj);
        }
    }

    /// The object transformation now in effect.
    pub open spec fn transform_spec(&self) -> Transform {
        Transform {
            polarity: self.polarity,
            mirroring: self.mirroring,
            rotation: self.rotation,
            scaling: self.scaling,
        }
    }

    /// The stroke that a plot to `c` draws outside a region.
    pub open spec fn stroke_to(&self, c: Coordinates, aperture: ApertureId) -> GraphicObject {
        GraphicObject::Stroke {
            aperture,
            from: self.point,
            to: self.target_spec(c),
            center_offset: (
                match c.i {
                    Some(v) => v,
                    None => 0,
                },
                match c.j {
                    Some(v) => v,
                    None => 0,
                },
            ),
            mode: self.interpolation,
            transform: self.transform_spec(),
        }
    }

    /// The object transformation now in effect.
    pub fn transform(&self) -> (r: Transform)
        ensures
            r == self.transform_spec(),
    {
        Transform {
            polarity: self.polarity,
            mirroring: self.mirroring,
            rotation: self.rotation,
            scaling: self.scaling,
        }
    }

    /// The end point of an operation: missing coordinates keep their value.
    pub open spec fn target_spec(&self, c: Coordinates) -> (i32, i32) {
        (
            match c.x {
                Some(x) => x,
                None => self.point.0,
            },
            match c.y {
                Some(y) => y,
                None => self.point.1,
            },
        )
    }

    fn target(&self, c: Coordinates) -> (r: (i32, i32))
        ensures
            r == self.target_spec(c),
    {
        let x = match c.x {
            Some(x) => x,
            None => self.point.0,
        };
        let y = match c.y {
            Some(y) => y,
            None => self.point.1,
        };
        (x, y)
    }

    /// `AD`: registers an aperture under a number not used yet.
    fn define_aperture(&mut self, id: ApertureId, t: ApertureTemplate) -> (r: Result<(), StateError>)
        requires
            old(self).wf(),
        ensures
            r is Err ==> *final(self) == *old(self),
            final(self).same_modes(&*old(self)),
            final(self).wf(),
            final(self).blocks@.len() == old(self).blocks@.len(),
            final(self).finished == old(self).finished,
            defined(old(self).apertures@, id) || block_open(old(self).blocks@, id) ==> r == Err::<
                (),
                StateError,
            >(StateError::ApertureRedefined(id)),
            r is Err <==> (defined(old(self).apertures@, id) || block_open(old(self).blocks@, id) || (
            t matches ApertureTemplate::Macro(name, _) && !macro_defined(old(self).macros@, name@))),
            r is Ok ==> defined(final(self).apertures@, id),
    {
        if self.find_aperture(id).is_some() || self.block_is_open(id) {
            return Err(StateError::ApertureRedefined(id));
        }
        if let ApertureTemplate::Macro(name, _) = &t {
            if self.find_macro(name.as_slice()).is_none() {
                return Err(StateError::UnknownMacro(id));
            }
        }
        let ghost before = self.apertures@;
        self.apertures.push((id, Aperture::Template(t)));
        proof {
            assert(self.apertures@[before.len() as int].0 == id);
            if let Some(a) = self.aperture {
                let i = choose|i: int| 0 <= i < before.len() && (#[trigger] before[i]).0 == a;
                assert(self.apertures@[i] == before[i]);
            }
        }
        Ok(())
    }

    /// `AM`: registers a macro template under a name not used yet.
    fn define_macro(&mut self, name: Vec<u8>, body: Vec<u8>) -> (r: Result<(), StateError>)
        requires
            old(self).wf(),
        ensures
            r is Err ==> *final(self) == *old(self),
            final(self).same_modes(&*old(self)),
            final(self).apertures@ == old(self).apertures@,
            final(self).wf(),
            final(self).blocks@.len() == old(self).blocks@.len(),
            final(self).finished == old(self).finished,
            macro_defined(old(self).macros@, name@) ==> r == Err::<(), StateError>(
                StateError::MacroRedefined,
            ),
            r is Ok ==> macro_defined(final(self).macros@, name@),
            !macro_defined(old(self).macros@, name@) && spec_template(body@, 0) is None ==> r
                == Err::<(), StateError>(StateError::MacroSyntax),
            !macro_defined(old(self).macros@, name@) && spec_template(body@, 0) is Some ==> r is Ok,
    {
        if self.find_macro(name.as_slice()).is_some() {
            return Err(StateError::MacroRedefined);
        }
        let template = match parse_template(body.as_slice()) {
            Some(t) => t,
            None => return Err(StateError::MacroSyntax),
        };
        let ghost nm = name@;
        let ghost before = self.macros@;
        self.macros.push((name, template));
        assert(self.macros@[before.len() as int].0@ == nm);
        Ok(())
    }

    /// `D01`: a draw or an arc, or a segment of the contour of a region.
    fn plot(&mut self, c: Coordinates) -> (r: Result<(), StateError>)
        requires
            old(self).wf(),
        ensures
            r is Err ==> *final(self) == *old(self),
            final(self).same_modes(&*old(self)),
            final(self).apertures@ == old(self).apertures@,
            final(self).wf(),
            final(self).blocks@.len() == old(self).blocks@.len(),
            final(self).finished == old(self).finished,
            old(self).format is None ==> r == Err::<(), StateError>(StateError::FormatMissing),
            old(self).format is Some && old(self).in_region ==> r is Ok,
            old(self).format is Some && !old(self).in_region && old(self).aperture is None ==> r
                == Err::<(), StateError>(StateError::NoCurrentAperture),
            old(self).format is Some && old(self).aperture is Some ==> r is Ok,
            r is Ok ==> final(self).point == old(self).target_spec(c),
            r is Ok && old(self).in_region ==> final(self).targets() == old(self).targets(),
            r is Ok && !old(self).in_region ==> (old(self).aperture matches Some(id)
                && final(self).targets() == old(self).targets().push(old(self).stroke_to(c, id))),
    {
        if self.format.is_none() {
            return Err(StateError::FormatMissing);
        }
        let to = self.target(c);
        if self.in_region {
            if self.contours.len() == 0 {
                let start = vec![self.point];
                self.contours.push(start);
            }
            let mut last = self.contours.pop().unwrap();
            last.push(to);
            self.contours.push(last);
            self.point = to;
            return Ok(());
        }
        let aperture = match self.aperture {
            Some(id) => id,
            None => return Err(StateError::NoCurrentAperture),
        };
        let i = match c.i {
            Some(v) => v,
            None => 0,
        };
        let j = match c.j {
            Some(v) => v,
            None => 0,
        };
        let obj = GraphicObject::Stroke {
            aperture,
            from: self.point,
            to,
            center_offset: (i, j),
            mode: self.interpolation,
            transform: self.transform(),
        };
        self.emit(obj);
        self.point = to;
        Ok(())
    }

    /// `D02`: moves the current point; inside a region it starts a new
    /// contour.
    fn move_to(&mut self, c: Coordinates) -> (r: Result<(), StateError>)
        requires
            old(self).wf(),
        ensures
            r is Err ==> *final(self) == *old(self),
            final(self).same_modes(&*old(self)),
            final(self).apertures@ == old(self).apertures@,
            final(self).wf(),
            final(self).blocks@.len() == old(self).blocks@.len(),
            final(self).finished == old(self).finished,
            r is Err <==> old(self).format is None,
            r is Err ==> r == Err::<(), StateError>(StateError::FormatMissing),
            r is Ok ==> final(self).point == old(self).target_spec(c),
    {
        if self.format.is_none() {
            return Err(StateError::FormatMissing);
        }
        let to = self.target(c);
        if self.in_region {
            let start = vec![to];
            self.contours.push(start);
        }
        self.point = to;
        Ok(())
    }

    /// `D03`: flashes the current aperture; a macro aperture is evaluated
    /// with the parameters it was defined with.
    fn flash(&mut self, c: Coordinates) -> (r: Result<(), StateError>)
        requires
            old(self).wf(),
        ensures
            r is Err ==> *final(self) == *old(self),
            final(self).same_modes(&*old(self)),
            final(self).apertures@ == old(self).apertures@,
            final(self).wf(),
            final(self).blocks@.len() == old(self).blocks@.len(),
            final(self).finished == old(self).finished,
            old(self).format is None ==> r == Err::<(), StateError>(StateError::FormatMissing),
            old(self).format is Some && old(self).in_region ==> r == Err::<(), StateError>(
                StateError::FlashInRegion,
            ),
            old(self).format is Some && !old(self).in_region && old(self).aperture is None ==> r
                == Err::<(), StateError>(StateError::NoCurrentAperture),
            old(self).format is Some && !old(self).in_region && (old(self).aperture matches Some(
                id,
            ) && old(self).flash_evaluates(id)) ==> r is Ok,
            r is Ok ==> final(self).point == old(self).target_spec(c),
            r is Ok ==> {
                &&& final(self).targets().len() == old(self).targets().len() + 1
                &&& final(self).targets().drop_last() == old(self).targets()
                &&& final(self).targets().last() matches GraphicObject::Flash {
                    aperture,
                    at,
                    transform,
                    ..
                } && Some(aperture) == old(self).aperture && at == old(self).target_spec(c)
                    && transform == old(self).transform_spec()
            },
    {
        if self.format.is_none() {
            return Err(StateError::FormatMissing);
        }
        if self.in_region {
            return Err(StateError::FlashInRegion);
        }
        let aperture = match self.aperture {
            Some(id) => id,
            None => return Err(StateError::NoCurrentAperture),
        };
        let to = self.target(c);
        let k = match self.find_aperture(aperture) {
            Some(k) => k,
            None => return Err(StateError::UnknownAperture(aperture)),
        };
        let shapes = match &self.apertures[k].1 {
            Aperture::Template(ApertureTemplate::Macro(name, params)) => {
                let m = match self.find_macro(name.as_slice()) {
                    Some(m) => m,
                    None => return Err(StateError::UnknownMacro(aperture)),
                };
                if params.len() > u32::MAX as usize {
                    return Err(StateError::Evaluation(EvalError::Parameter(u32::MAX)));
                }
                match evaluate(&self.macros[m].1, params) {
                    Ok(s) => s,
                    Err(e) => return Err(StateError::Evaluation(e)),
                }
            },
            _ => Vec::new(),
        };
        let obj = GraphicObject::Flash { aperture, at: to, transform: self.transform(), shapes };
        let ghost before = self.targets();
        self.emit(obj);
        assert(self.targets().drop_last() =~= before);
        self.point = to;
        Ok(())
    }

    /// `TF`: sets a file attribute, replacing one of the same name.
    fn set_file_attribute(&mut self, name: FileAttributeName, values: Vec<EscapedString>)
        requires
            old(self).wf(),
        ensures
            final(self).same_modes(&*old(self)),
            final(self).apertures@ == old(self).apertures@,
            final(self).wf(),
            final(self).blocks@.len() == old(self).blocks@.len(),
            final(self).finished == old(self).finished,
            final(self).file_attributes@.len() > 0,
            final(self).file_attributes@.last().0 == name,
    {
        if let Some(i) = self.find_file_attribute(&name) {
            self.file_attributes.remove(i);
        }
        self.file_attributes.push((name, values));
    }

    /// Where a file attribute spelled like `name` is.
    fn find_file_attribute(&self, name: &FileAttributeName) -> (r: Option<usize>)
        ensures
            r matches Some(i) ==> i < self.file_attributes@.len()
                && self.file_attributes@[i as int].0@ == name@,
    {
        let mut i: usize = 0;
        while i < self.file_attributes.len()
            invariant
                i <= self.file_attributes@.len(),
            decreases self.file_attributes@.len() - i,
        {
            if self.file_attributes[i].0.same_name(name) {
                return Some(i);
            }
            i += 1;
        }
        None
    }
    /// Applies one command to the state.
    ///
    /// Every command has a rule; the clauses below give when each fails and
    /// what a success changes.
    #[verifier::rlimit(60)]
    #[verifier::spinoff_prover]
    pub fn step(&mut self, cmd: Command) -> (r: Result<(), StateError>)
        requires
            old(self).wf(),
        ensures
            final(self).wf(),
            step_post(*old(self), cmd, r, *final(self)),
    {
        match cmd {
            Command::Comment => Ok(()),
            Command::Mode(u) => {
                if self.unit.is_some() {
                    return Err(StateError::UnitRedefined);
                }
                self.unit = Some(u);
                Ok(())
            },
            Command::FormatSpecification(x, y) => {
                if self.format.is_some() && self.created {
                    return Err(StateError::FormatRedefined);
                }
                self.format = Some((x, y));
                Ok(())
            },
            Command::ApertureDefine(id, t) => self.define_aperture(id, t),
            Command::ApertureMacro(name, body) => self.define_macro(name, body),
            Command::SetCurrentAperture(id) => {
                if self.find_aperture(id).is_none() {
                    return Err(StateError::UnknownAperture(id));
                }
                self.aperture = Some(id);
                Ok(())
            },
            Command::Plot(c) => self.plot(c),
            Command::Move(c) => self.move_to(c),
            Command::Flash(c) => self.flash(c),
            Command::SetLinear => {
                self.interpolation = Interpolation::Linear;
                Ok(())
            },
            Command::SetCWCircular => {
                if !self.arc_initialized {
                    return Err(StateError::ArcNotInitialized);
                }
                self.interpolation = Interpolation::Clockwise;
                Ok(())
            },
            Command::SetCCWCircular => {
                if !self.arc_initialized {
                    return Err(StateError::ArcNotInitialized);
                }
                self.interpolation = Interpolation::CounterClockwise;
                Ok(())
            },
            Command::ArcInit => {
                self.arc_initialized = true;
                Ok(())
            },
            Command::LoadPolarity(p) => {
                self.polarity = p;
                Ok(())
            },
            Command::LoadMirroring(m) => {
                self.mirroring = m;
                Ok(())
            },
            Command::LoadRotation(d) => {
                self.rotation = Some(d);
                Ok(())
            },
            Command::LoadScaling(d) => {
                self.scaling = Some(d);
                Ok(())
            },
            Command::StartRegion => {
                if self.in_region {
                    return Err(StateError::NestedRegion);
                }
                self.in_region = true;
                self.contours = Vec::new();
                Ok(())
            },
            Command::EndRegion => {
                if !self.in_region {
                    return Err(StateError::RegionNotOpen);
                }
                self.in_region = false;
                let mut contours: Vec<Vec<(i32, i32)>> = Vec::new();
                std::mem::swap(&mut self.contours, &mut contours);
                let transform = self.transform();
                self.emit(GraphicObject::Region { contours, transform });
                Ok(())
            },
            Command::ApertureBlock(Some(id)) => {
                if self.find_aperture(id).is_some() || self.block_is_open(id) {
                    return Err(StateError::ApertureRedefined(id));
                }
                if self.blocks.len() == MAX_BLOCK_DEPTH {
                    return Err(StateError::BlocksTooDeep);
                }
                self.blocks.push((id, Vec::new()));
                Ok(())
            },
            Command::ApertureBlock(None) => {
                if self.blocks.len() == 0 {
                    return Err(StateError::BlockNotOpen);
                }
                let (id, content) = self.blocks.pop().unwrap();
                let ghost before = self.apertures@;
                self.apertures.push((id, Aperture::Block(content)));
                proof {
                    assert(self.apertures@[before.len() as int].0 == id);
                    if let Some(a) = self.aperture {
                        let i = choose|i: int| 0 <= i < before.len() && (#[trigger] before[i]).0 == a;
                        assert(self.apertures@[i] == before[i]);
                    }
                }
                Ok(())
            },
            Command::StepAndRepeat(Some(grid)) => {
                if self.step_repeat.is_some() {
                    return Err(StateError::NestedStepAndRepeat);
                }
                let transform = self.transform();
                self.step_repeat = Some((grid, transform, Vec::new()));
                Ok(())
            },
            Command::StepAndRepeat(None) => {
                let (grid, transform, content) = match self.step_repeat.take() {
                    Some(sr) => sr,
                    None => return Err(StateError::StepAndRepeatNotOpen),
                };
                self.emit(GraphicObject::StepAndRepeat { grid, transform, content });
                Ok(())
            },
            Command::AttributeOnFile(name, values) => {
                self.set_file_attribute(name, values);
                Ok(())
            },
            Command::AttributeOnAperture(name, values) => {
                set_entry(&mut self.aperture_attributes, name, values);
                Ok(())
            },
            Command::AttributeOnObject(name, values) => {
                set_entry(&mut self.object_attributes, name, values);
                Ok(())
            },
            Command::AttributeDelete(Some(name)) => {
                remove_entry(&mut self.aperture_attributes, name.as_slice());
                remove_entry(&mut self.object_attributes, name.as_slice());
                Ok(())
            },
            Command::AttributeDelete(None) => {
                self.aperture_attributes = Vec::new();
                self.object_attributes = Vec::new();
                Ok(())
            },
            Command::EndOfFile => {
                if self.in_region || self.blocks.len() > 0 || self.step_repeat.is_some() {
                    return Err(StateError::UnclosedAtEnd);
                }
                self.finished = true;
                Ok(())
            },
        }
    }
}

/// Sets the values of the attribute `name`, replacing its former values.
fn set_entry(dict: &mut Vec<(Vec<u8>, Vec<EscapedString>)>, name: Vec<u8>, values: Vec<EscapedString>)
    ensures
        final(dict)@.len() > 0,
        final(dict)@.last().0@ == name@,
{
    remove_entry(dict, name.as_slice());
    let ghost nm = name@;
    dict.push((name, values));
    assert(final(dict)@.last().0@ == nm);
}

/// Removes the attribute `name`.
fn remove_entry(dict: &mut Vec<(Vec<u8>, Vec<EscapedString>)>, name: &[u8])
    ensures
        forall|i: int| 0 <= i < final(dict)@.len() ==> (#[trigger] final(dict)@[i]).0@ != name@,
        final(dict)@.len() <= old(dict)@.len(),
{
    let mut i: usize = 0;
    while i < dict.len()
        invariant
            i <= dict@.len() <= old(dict)@.len(),
            forall|j: int| 0 <= j < i ==> (#[trigger] dict@[j]).0@ != name@,
        decreases dict@.len() - i,
    {
        if same_bytes(dict[i].0.as_slice(), name) {
            dict.remove(i);
        } else {
            i += 1;
        }
    }
}

/// What a step from `before` with the command `cmd` may give: the result
/// `r` and the state `after` it.
pub open spec fn step_post(before: GraphicsState, cmd: Command, r: Result<(), StateError>, after: GraphicsState) -> bool {
    &&& r is Err ==> after == before
    &&& r is Ok && !(cmd is ApertureBlock) ==> after.blocks@.len() == before.blocks@.len()
    &&& r is Ok && !(cmd is EndOfFile) ==> after.finished == before.finished
    &&& r is Ok && !(cmd is ApertureDefine) && !(cmd is ApertureBlock) ==> after.apertures@
            == before.apertures@
    &&& r is Ok && !(cmd is StartRegion) && !(cmd is EndRegion) ==> after.in_region == before.in_region
    &&& r is Ok && !(cmd is SetCurrentAperture) ==> after.aperture == before.aperture
    &&& r is Ok && !(cmd is Mode) ==> after.unit == before.unit
    &&& r is Ok && !(cmd is FormatSpecification) ==> after.format == before.format
    &&& match cmd {
            Command::Mode(u) => {
                &&& r is Err <==> before.unit is Some
                &&& r is Err ==> r == Err::<(), StateError>(StateError::UnitRedefined)
                &&& r is Ok ==> after.unit == Some(u)
            },
            Command::FormatSpecification(x, y) => {
                &&& r is Err <==> before.format is Some && before.created
                &&& r is Err ==> r == Err::<(), StateError>(StateError::FormatRedefined)
                &&& r is Ok ==> after.format == Some((x, y))
            },
            Command::ApertureDefine(id, t) => {
                &&& defined(before.apertures@, id) || block_open(before.blocks@, id) ==> r
                    == Err::<(), StateError>(StateError::ApertureRedefined(id))
                &&& r is Err <==> (defined(before.apertures@, id) || block_open(
                    before.blocks@,
                    id,
                ) || (t matches ApertureTemplate::Macro(name, _) && !macro_defined(
                    before.macros@,
                    name@,
                )))
                &&& r is Ok ==> defined(after.apertures@, id)
            },
            Command::ApertureMacro(name, body) => {
                &&& macro_defined(before.macros@, name@) ==> r == Err::<(), StateError>(
                    StateError::MacroRedefined,
                )
                &&& r is Ok ==> macro_defined(after.macros@, name@)
                &&& !macro_defined(before.macros@, name@) && spec_template(body@, 0) is None ==> r
                    == Err::<(), StateError>(StateError::MacroSyntax)
                &&& !macro_defined(before.macros@, name@) && spec_template(body@, 0) is Some ==> r is Ok
            },
            Command::SetCurrentAperture(id) => {
                &&& r is Err <==> !defined(before.apertures@, id)
                &&& r is Err ==> r == Err::<(), StateError>(StateError::UnknownAperture(id))
                &&& r is Ok ==> after.aperture == Some(id)
            },
            Command::Plot(c) => {
                &&& before.format is None ==> r == Err::<(), StateError>(
                    StateError::FormatMissing,
                )
                &&& before.format is Some && before.in_region ==> r is Ok
                &&& before.format is Some && !before.in_region && before.aperture is None
                    ==> r == Err::<(), StateError>(StateError::NoCurrentAperture)
                &&& before.format is Some && before.aperture is Some ==> r is Ok
                &&& r is Ok ==> after.point == before.target_spec(c)
                &&& r is Ok && before.in_region ==> after.targets() == before.targets()
                &&& r is Ok && !before.in_region ==> (before.aperture matches Some(id)
                    && after.targets() == before.targets().push(
                    before.stroke_to(c, id),
                ))
            },
            Command::Move(c) => {
                &&& r is Err <==> before.format is None
                &&& r is Err ==> r == Err::<(), StateError>(StateError::FormatMissing)
                &&& r is Ok ==> after.point == before.target_spec(c)
            },
            Command::Flash(c) => {
                &&& before.format is None ==> r == Err::<(), StateError>(
                    StateError::FormatMissing,
                )
                &&& before.format is Some && before.in_region ==> r == Err::<
                    (),
                    StateError,
                >(StateError::FlashInRegion)
                &&& before.format is Some && !before.in_region && before.aperture is None
                    ==> r == Err::<(), StateError>(StateError::NoCurrentAperture)
                &&& before.format is Some && !before.in_region && (before.aperture matches Some(id) && before.flash_evaluates(id)) ==> r is Ok
                &&& r is Ok ==> after.point == before.target_spec(c)
                &&& r is Ok ==> {
                    &&& after.targets().len() == before.targets().len() + 1
                    &&& after.targets().drop_last() == before.targets()
                    &&& after.targets().last() matches GraphicObject::Flash {
                        aperture,
                        at,
                        transform,
                        ..
                    } && Some(aperture) == before.aperture && at == before.target_spec(c)
                        && transform == before.transform_spec()
                }
            },
            Command::SetLinear => r is Ok && after.interpolation == Interpolation::Linear,
            Command::SetCWCircular => {
                &&& r is Err <==> !before.arc_initialized
                &&& r is Err ==> r == Err::<(), StateError>(StateError::ArcNotInitialized)
                &&& r is Ok ==> after.interpolation == Interpolation::Clockwise
            },
            Command::SetCCWCircular => {
                &&& r is Err <==> !before.arc_initialized
                &&& r is Err ==> r == Err::<(), StateError>(StateError::ArcNotInitialized)
                &&& r is Ok ==> after.interpolation == Interpolation::CounterClockwise
            },
            Command::ArcInit => r is Ok && after.arc_initialized,
            Command::LoadPolarity(p) => r is Ok && after.polarity == p,
            Command::LoadMirroring(m) => r is Ok && after.mirroring == m,
            Command::AttributeOnFile(a, _) => r is Ok && after.file_attributes@.len() > 0
                && after.file_attributes@.last().0 == a,
            Command::AttributeOnAperture(n, _) => r is Ok
                && after.aperture_attributes@.len() > 0
                && after.aperture_attributes@.last().0@ == n@,
            Command::AttributeOnObject(n, _) => r is Ok && after.object_attributes@.len()
                > 0 && after.object_attributes@.last().0@ == n@,
            Command::AttributeDelete(Some(n)) => {
                &&& r is Ok
                &&& forall|i: int| 0 <= i < after.aperture_attributes@.len()
                    ==> (#[trigger] after.aperture_attributes@[i]).0@ != n@
                &&& forall|i: int| 0 <= i < after.object_attributes@.len()
                    ==> (#[trigger] after.object_attributes@[i]).0@ != n@
            },
            Command::AttributeDelete(None) => r is Ok && after.aperture_attributes@.len()
                == 0 && after.object_attributes@.len() == 0,
            Command::LoadRotation(d) => r is Ok && after.rotation == Some(d),
            Command::LoadScaling(d) => r is Ok && after.scaling == Some(d),
            Command::StartRegion => {
                &&& r is Err <==> before.in_region
                &&& r is Err ==> r == Err::<(), StateError>(StateError::NestedRegion)
                &&& r is Ok ==> after.in_region
            },
            Command::EndRegion => {
                &&& r is Err <==> !before.in_region
                &&& r is Err ==> r == Err::<(), StateError>(StateError::RegionNotOpen)
                &&& r is Ok ==> !after.in_region
                &&& r is Ok ==> after.targets() == before.targets().push(
                    GraphicObject::Region {
                        contours: before.contours,
                        transform: before.transform_spec(),
                    },
                )
            },
            Command::ApertureBlock(Some(id)) => {
                &&& r is Err <==> (defined(before.apertures@, id) || block_open(
                    before.blocks@,
                    id,
                ) || before.blocks@.len() == MAX_BLOCK_DEPTH)
                &&& r is Ok ==> after.blocks@.len() == before.blocks@.len() + 1
            },
            Command::ApertureBlock(None) => {
                &&& r is Err <==> before.blocks@.len() == 0
                &&& r is Err ==> r == Err::<(), StateError>(StateError::BlockNotOpen)
                &&& r is Ok ==> after.blocks@.len() == before.blocks@.len() - 1
                    && defined(after.apertures@, before.blocks@.last().0)
            },
            Command::StepAndRepeat(Some(_)) => {
                &&& r is Err <==> before.step_repeat is Some
                &&& r is Err ==> r == Err::<(), StateError>(StateError::NestedStepAndRepeat)
                &&& r is Ok ==> after.step_repeat is Some
            },
            Command::StepAndRepeat(None) => {
                &&& r is Err <==> before.step_repeat is None
                &&& r is Err ==> r == Err::<(), StateError>(StateError::StepAndRepeatNotOpen)
                &&& r is Ok ==> after.step_repeat is None
                &&& before.step_repeat matches Some((g, tr, content)) ==> {
                    let obj = GraphicObject::StepAndRepeat {
                        grid: g,
                        transform: tr,
                        content,
                    };
                    if before.blocks@.len() > 0 {
                        after.blocks@.last().1@ == before.blocks@.last().1@.push(obj)
                    } else {
                        after.scene@ == before.scene@.push(obj)
                    }
                }
            },
            Command::EndOfFile => {
                &&& r is Err <==> (before.in_region || before.blocks@.len() > 0
                    || before.step_repeat is Some)
                &&& r is Err ==> r == Err::<(), StateError>(StateError::UnclosedAtEnd)
                &&& r is Ok ==> after.finished && after.blocks@.len() == 0
                    && !after.in_region && after.step_repeat is None
            },
            _ => r is Ok,
        }
}

/// How a command changes the number of open aperture blocks.
pub open spec fn block_delta(c: Command) -> int {
    match c {
        Command::ApertureBlock(Some(_)) => 1,
        Command::ApertureBlock(None) => -1,
        _ => 0,
    }
}

/// The number of aperture blocks that `cmds` leaves open.
pub open spec fn block_depth(cmds: Seq<Command>) -> int
    decreases cmds.len(),
{
    if cmds.len() == 0 {
        0
    } else {
        block_depth(cmds.drop_last()) + block_delta(cmds.last())
    }
}

/// A failed interpretation: the error, and the index of the command where
/// it arose (the length of the sequence when the end of file is missing).
#[derive(Clone, Copy, Debug, PartialEq, Eq, Structural)]
pub struct InterpretError {
    pub index: usize,
    pub error: StateError,
}

/// `trace` holds the states of a run of the first `k` commands of `cmds`
/// from the initial state, each step a success.
pub open spec fn runs(cmds: Seq<Command>, trace: Seq<GraphicsState>, k: int) -> bool {
    &&& 0 <= k <= cmds.len()
    &&& trace.len() == k + 1
    &&& trace[0].is_initial()
    &&& forall|i: int| 0 <= i < k ==> step_post(trace[i], #[trigger] cmds[i], Ok(()), trace[i + 1])
}

/// No end of file among the first `k` commands.
pub open spec fn no_end_before(cmds: Seq<Command>, k: int) -> bool {
    forall|i: int| 0 <= i < k ==> !(#[trigger] cmds[i] is EndOfFile)
}

/// How a run of `cmds` fails with `e`, given the states `trace` of the `k`
/// steps that succeeded: the next step fails with `e`, or the commands end
/// without the end of file, or commands follow the end of file.
pub open spec fn fails_with(cmds: Seq<Command>, trace: Seq<GraphicsState>, k: int, e: StateError) -> bool {
    ||| (k < cmds.len() && no_end_before(cmds, k) && step_post(trace[k], cmds[k], Err(e), trace[k]))
    ||| (k == cmds.len() && no_end_before(cmds, k) && e == StateError::MissingEndOfFile)
    ||| (0 < k < cmds.len() && cmds[k - 1] is EndOfFile && no_end_before(cmds, k - 1) && e
        == StateError::AfterEndOfFile)
}

/// Interprets a command sequence from the initial state and returns the
/// final state, which holds the scene.
///
/// The commands are applied one after the other. The result is the state
/// after the last step when every step succeeds and the end of file comes
/// last and only there; otherwise the error of the first step that fails,
/// or the missing end of file, or the commands that follow it, with the
/// index of that command. A sequence that ends with an aperture block still
/// open is rejected, however well each of its commands decoded.
pub fn interpret(cmds: Vec<Command>) -> (r: Result<GraphicsState, InterpretError>)
    ensures
        r is Ok ==> {
            &&& cmds@.len() > 0
            &&& cmds@.last() == Command::EndOfFile
            &&& forall|i: int| 0 <= i < cmds@.len() - 1 ==> !(#[trigger] cmds@[i] is EndOfFile)
            &&& block_depth(cmds@) == 0
        },
        r matches Ok(s) ==> s.finished && s.blocks@.len() == 0 && !s.in_region
            && s.step_repeat is None,
        r matches Ok(s) ==> exists|trace: Seq<GraphicsState>|
            #[trigger] runs(cmds@, trace, cmds@.len() as int) && trace.last() == s,
        r matches Err(e) ==> exists|trace: Seq<GraphicsState>|
            #[trigger] runs(cmds@, trace, e.index as int) && fails_with(
                cmds@,
                trace,
                e.index as int,
                e.error,
            ),
{
    let ghost all = cmds@;
    let total = cmds.len();
    let mut pending = cmds;
    let mut stack: Vec<Command> = Vec::new();
    while pending.len() > 0
        invariant
            all == cmds@,
            pending@.len() + stack@.len() == all.len(),
            pending@ == all.subrange(0, pending@.len() as int),
            forall|k: int| 0 <= k < stack@.len() ==> #[trigger] stack@[k] == all[all.len() - 1 - k],
        decreases pending@.len(),
    {
        let c = pending.pop().unwrap();
        stack.push(c);
    }
    let mut state = GraphicsState::new();
    let ghost mut trace: Seq<GraphicsState> = seq![state];
    let mut index: usize = 0;
    assert(all.subrange(0, 0) =~= Seq::<Command>::empty());
    while stack.len() > 0
        invariant
            all == cmds@,
            runs(all, trace, all.len() - stack@.len()),
            index == all.len() - stack@.len(),
            all.len() == total,
            trace.last() == state,
            stack@.len() <= all.len(),
            forall|k: int| 0 <= k < stack@.len() ==> #[trigger] stack@[k] == all[all.len() - 1 - k],
            state.wf(),
            !state.finished,
            state.blocks@.len() == block_depth(all.subrange(0, all.len() - stack@.len())),
            forall|i: int| 0 <= i < all.len() - stack@.len() ==> !(#[trigger] all[i] is EndOfFile),
        decreases stack@.len(),
    {
        let ghost i = all.len() - stack@.len();
        let c = stack.pop().unwrap();
        assert(c == all[i]);
        assert(all.subrange(0, i + 1).drop_last() =~= all.subrange(0, i));
        let eof = matches!(c, Command::EndOfFile);
        let ghost before = state;
        if let Err(e) = state.step(c) {
            assert(fails_with(all, trace, i, e));
            let err = InterpretError { index, error: e };
            assert(runs(cmds@, trace, err.index as int) && fails_with(
                cmds@,
                trace,
                err.index as int,
                err.error,
            ));
            return Err(err);
        }
        index = index + 1;
        proof {
            let old_trace = trace;
            trace = trace.push(state);
            assert forall|j: int| 0 <= j < i + 1 implies step_post(
                trace[j],
                #[trigger] all[j],
                Ok(()),
                trace[j + 1],
            ) by {
                if j < i {
                    assert(step_post(old_trace[j], all[j], Ok(()), old_trace[j + 1]));
                }
            }
            assert(runs(all, trace, i + 1));
        }
        if eof {
            if stack.len() > 0 {
                assert(fails_with(all, trace, i + 1, StateError::AfterEndOfFile));
                let err = InterpretError { index, error: StateError::AfterEndOfFile };
                assert(runs(cmds@, trace, err.index as int) && fails_with(
                    cmds@,
                    trace,
                    err.index as int,
                    err.error,
                ));
                return Err(err);
            }
            assert(all.subrange(0, i + 1) =~= all);
            return Ok(state);
        }
    }
    assert(fails_with(all, trace, all.len() as int, StateError::MissingEndOfFile));
    let err = InterpretError { index, error: StateError::MissingEndOfFile };
    assert(runs(cmds@, trace, err.index as int) && fails_with(
        cmds@,
        trace,
        err.index as int,
        err.error,
    ));
    Err(err)
}

} // verus!
