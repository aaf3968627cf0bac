use gerber::attribute::FileAttributeName;
use gerber::command::{ApertureTemplate, Command, Coordinates, Mirroring, Polarity, StepRepeat, Unit};
use gerber::primitive::{ApertureId, Decimal, EscapedString};
use gerber::{
    ab_statement, aperture_define, arc_init, attribute_delete, attribute_on_aperture,
    attribute_on_file, attribute_on_object, comment, load_mirroring,
    coordinate_digits, end_of_file, format_specification, gerber, load_polarity, load_rotation,
    mode, operation, set_ccw_circular, set_current_aperture, set_cw_circular, set_linear,
    sr_statement, statement, GerberError,
};

#[test]
fn test_example() {
    let input = "G04 Different command styles*\n%FSLAX26Y26*%\n%MOMM*%\nM02*\n";
    assert_eq!(
        gerber(input.as_bytes()),
        Ok(vec![
            Command::Comment,
            Command::FormatSpecification(2, 2),
            Command::Mode(Unit::Millimeters),
            Command::EndOfFile,
        ])
    );
}

#[test]
fn test_comment() {
    assert_eq!(comment(b"G04 Single line comment*"), Some((Command::Comment, 24)));
    assert_eq!(comment(b"G04*"), Some((Command::Comment, 4)));
}

#[test]
fn test_mode() {
    assert_eq!(mode(b"%MOMM*%"), Some((Command::Mode(Unit::Millimeters), 7)));
    assert_eq!(mode(b"%MOIN*%"), Some((Command::Mode(Unit::Inches), 7)));
}

#[test]
fn test_coordinate_digits() {
    assert!(coordinate_digits(b"06").is_err());
    assert_eq!(coordinate_digits(b"16"), Ok((1, 2)));
    assert_eq!(coordinate_digits(b"26"), Ok((2, 2)));
    assert_eq!(coordinate_digits(b"36"), Ok((3, 2)));
    assert_eq!(coordinate_digits(b"46"), Ok((4, 2)));
    assert_eq!(coordinate_digits(b"56"), Ok((5, 2)));
    assert_eq!(coordinate_digits(b"66"), Ok((6, 2)));
    assert!(coordinate_digits(b"76").is_err());
    assert!(coordinate_digits(b"18").is_err());
}

#[test]
fn test_format_specification() {
    assert_eq!(
        format_specification(b"%FSLAX16Y66*%"),
        Some((Command::FormatSpecification(1, 6), 13))
    );
}

#[test]
fn test_set_linear() {
    assert_eq!(set_linear(b"G01*"), Some((Command::SetLinear, 4)));
}

#[test]
fn test_set_cw_circular() {
    assert_eq!(set_cw_circular(b"G02*"), Some((Command::SetCWCircular, 4)));
}

#[test]
fn test_set_ccw_circular() {
    assert_eq!(set_ccw_circular(b"G03*"), Some((Command::SetCCWCircular, 4)));
}

#[test]
fn test_arc_init() {
    assert_eq!(arc_init(b"G75*"), Some((Command::ArcInit, 4)));
}

fn defines(input: &str) -> bool {
    matches!(
        aperture_define(input.as_bytes()),
        Some((Command::ApertureDefine(..), n)) if n == input.len()
    )
}

#[test]
fn test_aperture_define() {
    assert!(defines("%ADD10C,0.1*%"));
    assert!(defines("%ADD11C,0.6*%"));
    assert!(defines("%ADD12R,0.6X0.6*%"));
    assert!(defines("%ADD13R,0.4X1.00*%"));
    assert!(defines("%ADD14R,1.00X0.4*%"));
    assert!(defines("%ADD15O,0.4X01.00*%"));
    assert!(defines("%ADD16P,1.00X3*%"));
    assert!(defines("%ADD19THERMAL80*%"));
}

#[test]
fn aperture_define_templates_come_before_macros() {
    assert_eq!(
        aperture_define(b"%ADD10C,0.1*%"),
        Some((
            Command::ApertureDefine(
                ApertureId(10),
                ApertureTemplate::Circle(Decimal::new(1, 1), None)
            ),
            13
        ))
    );
    assert_eq!(
        aperture_define(b"%ADD12R,0.6X0.5X0.1*%"),
        Some((
            Command::ApertureDefine(
                ApertureId(12),
                ApertureTemplate::Rectangle(
                    Decimal::new(6, 1),
                    Decimal::new(5, 1),
                    Some(Decimal::new(1, 1))
                )
            ),
            21
        ))
    );
    assert_eq!(
        aperture_define(b"%ADD16P,1.00X3*%"),
        Some((
            Command::ApertureDefine(
                ApertureId(16),
                ApertureTemplate::Polygon(Decimal::new(100, 2), Decimal::new(3, 0), None, None)
            ),
            16
        ))
    );
    assert_eq!(
        aperture_define(b"%ADD19THERMAL80*%"),
        Some((
            Command::ApertureDefine(
                ApertureId(19),
                ApertureTemplate::Macro(b"THERMAL80".to_vec(), vec![])
            ),
            17
        ))
    );
    assert_eq!(
        aperture_define(b"%ADD11Donut,0.30X0X0*%"),
        Some((
            Command::ApertureDefine(
                ApertureId(11),
                ApertureTemplate::Macro(
                    b"Donut".to_vec(),
                    vec![Decimal::new(30, 2), Decimal::new(0, 0), Decimal::new(0, 0)]
                )
            ),
            22
        ))
    );
    assert!(aperture_define(b"%ADD5C,0.1*%").is_none());
}

#[test]
fn operations_and_selection() {
    assert_eq!(
        operation(b"X2000000Y0I1000000J0D01*"),
        Some((
            Command::Plot(Coordinates {
                x: Some(2000000),
                y: Some(0),
                i: Some(1000000),
                j: Some(0)
            }),
            24
        ))
    );
    assert_eq!(
        operation(b"X0Y0D02*"),
        Some((
            Command::Move(Coordinates { x: Some(0), y: Some(0), i: None, j: None }),
            8
        ))
    );
    assert_eq!(
        operation(b"Y-5D03*"),
        Some((
            Command::Flash(Coordinates { x: None, y: Some(-5), i: None, j: None }),
            7
        ))
    );
    assert!(operation(b"X1D04*").is_none());
    assert_eq!(
        set_current_aperture(b"D10*"),
        Some((Command::SetCurrentAperture(ApertureId(10)), 4))
    );
    assert!(set_current_aperture(b"D01*").is_none());
}

#[test]
fn extended_statements() {
    assert_eq!(load_polarity(b"%LPC*%"), Some((Command::LoadPolarity(Polarity::Clear), 6)));
    assert_eq!(load_rotation(b"%LR45.5*%"), Some((Command::LoadRotation(Decimal::new(455, 1)), 9)));
    assert_eq!(ab_statement(b"%ABD12*%"), Some((Command::ApertureBlock(Some(ApertureId(12))), 8)));
    assert_eq!(ab_statement(b"%AB*%"), Some((Command::ApertureBlock(None), 5)));
    assert_eq!(
        sr_statement(b"%SRX3Y2I5.0J4.0*%"),
        Some((
            Command::StepAndRepeat(Some(StepRepeat {
                columns: 3,
                rows: 2,
                dx: Decimal::new(50, 1),
                dy: Decimal::new(40, 1)
            })),
            17
        ))
    );
    assert_eq!(load_mirroring(b"%LMXY*%"), Some((Command::LoadMirroring(Mirroring::XY), 7)));
    assert_eq!(load_mirroring(b"%LMN*%"), Some((Command::LoadMirroring(Mirroring::Plain), 6)));
    assert!(load_mirroring(b"%LMZ*%").is_none());
    assert_eq!(sr_statement(b"%SR*%"), Some((Command::StepAndRepeat(None), 5)));
    assert_eq!(attribute_delete(b"%TD*%"), Some((Command::AttributeDelete(None), 5)));
    assert_eq!(
        attribute_delete(b"%TD.AperFunction*%"),
        Some((Command::AttributeDelete(Some(b".AperFunction".to_vec())), 18))
    );
    assert_eq!(
        attribute_on_object(b"%TO.N,Net1*%"),
        Some((
            Command::AttributeOnObject(b".N".to_vec(), vec![EscapedString::new_unescaped(b"Net1")]),
            12
        ))
    );
    assert_eq!(
        attribute_on_aperture(b"%TA.AperFunction,ViaPad*%"),
        Some((
            Command::AttributeOnAperture(
                b".AperFunction".to_vec(),
                vec![EscapedString::new_unescaped(b"ViaPad")]
            ),
            25
        ))
    );
    assert_eq!(end_of_file(b"M02*"), Some((Command::EndOfFile, 4)));
    assert!(statement(b"M02*").is_none());
}

#[test]
fn file_attribute_names() {
    assert_eq!(
        attribute_on_file(b"%TF.Part,Single*%"),
        Some((
            Command::AttributeOnFile(
                FileAttributeName::Part,
                vec![EscapedString::new_unescaped(b"Single")]
            ),
            17
        ))
    );
    assert_eq!(
        attribute_on_file(b"%TF.FileFunction,Copper,L1,Top*%"),
        Some((
            Command::AttributeOnFile(
                FileAttributeName::FileFunction,
                vec![
                    EscapedString::new_unescaped(b"Copper"),
                    EscapedString::new_unescaped(b"L1"),
                    EscapedString::new_unescaped(b"Top")
                ]
            ),
            32
        ))
    );
    assert_eq!(
        attribute_on_file(b"%TF.PartNumber,1*%"),
        Some((
            Command::AttributeOnFile(
                FileAttributeName::UnknownStandardName(b".PartNumber".to_vec()),
                vec![EscapedString::new_unescaped(b"1")]
            ),
            18
        ))
    );
    assert_eq!(
        attribute_on_file(b"%TFMyAttr,x*%"),
        Some((
            Command::AttributeOnFile(
                FileAttributeName::UserDefinedName(b"MyAttr".to_vec()),
                vec![EscapedString::new_unescaped(b"x")]
            ),
            13
        ))
    );
    assert_eq!(FileAttributeName::parse(b".MD5,"), Some((FileAttributeName::MD5, 4)));
}

#[test]
fn file_without_end_is_refused() {
    assert_eq!(gerber(b"G04 x*\n%MOMM*%\n"), Err(GerberError::MissingEndOfFile(15)));
    assert_eq!(gerber(b""), Err(GerberError::MissingEndOfFile(0)));
}

#[test]
fn unknown_statement_is_refused() {
    assert_eq!(gerber(b"G04 x*\nG99*\nM02*"), Err(GerberError::Lexical(7)));
}

#[test]
fn text_after_end_is_refused() {
    assert_eq!(gerber(b"M02*\nG04 x*"), Err(GerberError::TrailingText(5)));
}

#[test]
fn line_breaks_are_optional() {
    assert_eq!(
        gerber(b"G01*G75*M02*"),
        Ok(vec![Command::SetLinear, Command::ArcInit, Command::EndOfFile])
    );
    assert_eq!(
        gerber(b"\r\nG01*\r\n\r\nM02*\r\n"),
        Ok(vec![Command::SetLinear, Command::EndOfFile])
    );
}
