use gerber::command::{Command, Mirroring, Polarity, Unit};
use gerber::gerber;
use gerber::primitive::ApertureId;
use gerber::state::{
    interpret, ErrorKind, GraphicObject, GraphicsState, InterpretError, StateError,
};

fn run(input: &str) -> Result<GraphicsState, StateError> {
    interpret(gerber(input.as_bytes()).unwrap()).map_err(|e| e.error)
}

const HEAD: &str = "%FSLAX26Y26*%\n%MOMM*%\n%ADD10C,0.1*%\n";

#[test]
fn region_open_and_close() {
    let s = run(&format!("{HEAD}G36*\nX0Y0D02*\nX10Y0D01*\nX10Y10D01*\nG37*\nM02*")).unwrap();
    assert_eq!(s.scene.len(), 1);
    match &s.scene[0] {
        GraphicObject::Region { contours, .. } => {
            assert_eq!(contours.len(), 1);
            assert_eq!(contours[0], vec![(0, 0), (10, 0), (10, 10)]);
        }
        other => panic!("unexpected object {other:?}"),
    }
}

#[test]
fn end_region_without_start() {
    let e = run(&format!("{HEAD}G37*\nM02*")).unwrap_err();
    assert_eq!(e, StateError::RegionNotOpen);
    assert_eq!(e.kind(), ErrorKind::Structure);
}

#[test]
fn nested_region() {
    let e = run(&format!("{HEAD}G36*\nG36*\nG37*\nM02*")).unwrap_err();
    assert_eq!(e, StateError::NestedRegion);
    assert_eq!(e.kind(), ErrorKind::Structure);
}

#[test]
fn undefined_aperture_is_a_reference_error() {
    let e = run(&format!("{HEAD}D11*\nX0Y0D03*\nM02*")).unwrap_err();
    assert_eq!(e, StateError::UnknownAperture(ApertureId(11)));
    assert_eq!(e.kind(), ErrorKind::Reference);
}

#[test]
fn flash_without_aperture() {
    let e = run("%FSLAX26Y26*%\nX0Y0D03*\nM02*").unwrap_err();
    assert_eq!(e, StateError::NoCurrentAperture);
    assert_eq!(e.kind(), ErrorKind::Reference);
}

#[test]
fn open_block_at_end() {
    let e = run(&format!("{HEAD}%ABD12*%\nD10*\nX0Y0D03*\nM02*")).unwrap_err();
    assert_eq!(e, StateError::UnclosedAtEnd);
}

#[test]
fn missing_end_of_file_in_commands() {
    let e = interpret(vec![Command::Mode(Unit::Millimeters)]).unwrap_err();
    assert_eq!(e, InterpretError { index: 1, error: StateError::MissingEndOfFile });
    assert_eq!(interpret(vec![]).unwrap_err().error, StateError::MissingEndOfFile);
    let e = interpret(vec![Command::EndOfFile, Command::Comment]).unwrap_err();
    assert_eq!(e, InterpretError { index: 1, error: StateError::AfterEndOfFile });
    let e = interpret(vec![Command::Comment, Command::EndRegion, Command::EndOfFile]).unwrap_err();
    assert_eq!(e, InterpretError { index: 1, error: StateError::RegionNotOpen });
}

#[test]
fn closed_block_becomes_aperture() {
    let s = run(&format!(
        "{HEAD}%ABD12*%\nD10*\nX0Y0D03*\n%AB*%\nD12*\nX5Y5D03*\nM02*"
    ))
    .unwrap();
    assert_eq!(s.scene.len(), 1);
    match &s.scene[0] {
        GraphicObject::Flash { aperture, at, transform, .. } => {
            assert_eq!(*aperture, ApertureId(12));
            assert_eq!(*at, (5, 5));
            assert_eq!(transform.polarity, Polarity::Dark);
        }
        other => panic!("unexpected object {other:?}"),
    }
    assert!(s.finished);
}

#[test]
fn block_close_without_open() {
    assert_eq!(run(&format!("{HEAD}%AB*%\nM02*")).unwrap_err(), StateError::BlockNotOpen);
}

#[test]
fn unit_set_twice() {
    let e = run("%MOMM*%\n%MOIN*%\nM02*").unwrap_err();
    assert_eq!(e, StateError::UnitRedefined);
    assert_eq!(e.kind(), ErrorKind::Redefinition);
}

#[test]
fn aperture_defined_twice() {
    let e = run(&format!("{HEAD}%ADD10C,0.2*%\nM02*")).unwrap_err();
    assert_eq!(e, StateError::ApertureRedefined(ApertureId(10)));
}

#[test]
fn format_after_objects() {
    let ok = run(&format!("{HEAD}%FSLAX26Y26*%\nM02*"));
    assert!(ok.is_ok());
    let e = run(&format!("{HEAD}D10*\nX1Y1D03*\n%FSLAX36Y36*%\nM02*")).unwrap_err();
    assert_eq!(e, StateError::FormatRedefined);
}

#[test]
fn coordinates_need_a_format() {
    assert_eq!(run("X1Y1D02*\nM02*").unwrap_err(), StateError::FormatMissing);
}

#[test]
fn arcs_need_initialisation() {
    assert_eq!(run(&format!("{HEAD}G02*\nM02*")).unwrap_err(), StateError::ArcNotInitialized);
    let s = run(&format!("{HEAD}G75*\nG02*\nD10*\nX0Y0D02*\nX2000000Y0I1000000J0D01*\nM02*")).unwrap();
    assert_eq!(s.scene.len(), 1);
}

#[test]
fn unknown_macro_is_a_reference_error() {
    let e = run(&format!("{HEAD}%ADD11Donut,0.3*%\nM02*")).unwrap_err();
    assert_eq!(e, StateError::UnknownMacro(ApertureId(11)));
    assert_eq!(e.kind(), ErrorKind::Reference);
}

#[test]
fn macro_flash_is_evaluated() {
    let input = "%FSLAX26Y26*%\n%MOMM*%\n%AMDonut*\n1,1,$1,$2,$3*\n$4=$1x0.75*\n1,0,$4,$2,$3*\n%\n%ADD11Donut,0.30X0X0*%\nD11*\nX0Y2000000D03*\nM02*\n";
    let s = run(input).unwrap();
    match &s.scene[0] {
        GraphicObject::Flash { shapes, at, .. } => {
            assert_eq!(*at, (0, 2000000));
            assert_eq!(shapes.len(), 2);
            assert_eq!(shapes[1].code, 1);
            let v = shapes[1].values[1];
            assert_eq!(v.num as f64 / v.den as f64, 0.225);
        }
        other => panic!("unexpected object {other:?}"),
    }
}

#[test]
fn macro_flash_with_missing_parameter() {
    let input = "%FSLAX26Y26*%\n%AMCirc*\n1,1,$1,$2,$3*%\n%ADD11Circ,1X0.5*%\nD11*\nX0Y0D03*\nM02*";
    let e = run(input).unwrap_err();
    assert_eq!(e.kind(), ErrorKind::Evaluation);
}

#[test]
fn step_and_repeat_groups_content() {
    let s = run(&format!("{HEAD}D10*\n%SRX3Y2I5.0J4.0*%\nX0Y0D03*\n%SR*%\nM02*")).unwrap();
    match &s.scene[0] {
        GraphicObject::StepAndRepeat { grid, content, .. } => {
            assert_eq!((grid.columns, grid.rows), (3, 2));
            assert_eq!(content.len(), 1);
        }
        other => panic!("unexpected object {other:?}"),
    }
    assert_eq!(
        run(&format!("{HEAD}%SRX1Y1I1J1*%\n%SRX1Y1I1J1*%\n%SR*%\n%SR*%\nM02*")).unwrap_err(),
        StateError::NestedStepAndRepeat
    );
}

#[test]
fn move_updates_point_only() {
    let s = run(&format!("{HEAD}X7Y8D02*\nY9D02*\nM02*")).unwrap();
    assert_eq!(s.point, (7, 9));
    assert_eq!(s.scene.len(), 0);
}

#[test]
fn attribute_dictionaries() {
    let s = run(&format!(
        "{HEAD}%TF.Part,Single*%\n%TF.Part,Other*%\n%TA.AperFunction,ViaPad*%\n%TO.N,Net1*%\n%TO.C,R1*%\n%TD.N*%\nM02*"
    ))
    .unwrap();
    assert_eq!(s.file_attributes.len(), 1);
    assert_eq!(s.aperture_attributes.len(), 1);
    assert_eq!(s.object_attributes.len(), 1);
    assert_eq!(s.object_attributes[0].0, b".C".to_vec());
    let s = run(&format!("{HEAD}%TA.AperFunction,ViaPad*%\n%TO.N,Net1*%\n%TD*%\nM02*")).unwrap();
    assert!(s.aperture_attributes.is_empty());
    assert!(s.object_attributes.is_empty());
}

#[test]
fn transform_applies_to_later_objects() {
    let s = run(&format!("{HEAD}D10*\nX0Y0D03*\n%LPC*%\n%LMXY*%\n%LR90*%\nX1Y1D03*\nM02*")).unwrap();
    match (&s.scene[0], &s.scene[1]) {
        (
            GraphicObject::Flash { transform: first, .. },
            GraphicObject::Flash { transform: second, .. },
        ) => {
            assert_eq!(first.polarity, Polarity::Dark);
            assert_eq!(first.mirroring, Mirroring::Plain);
            assert_eq!(second.polarity, Polarity::Clear);
            assert_eq!(second.mirroring, Mirroring::XY);
            assert!(second.rotation.is_some());
        }
        other => panic!("unexpected objects {other:?}"),
    }
}
