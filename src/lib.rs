//! Decoding of Gerber layer files.
//!
//! The decoder turns the bytes of a file into a sequence of [`Command`]s,
//! one per statement; the [`state`] module interprets that sequence with the
//! modal graphics state, and the [`template`] module evaluates the
//! templates of macro apertures.
use vstd::prelude::*;

pub mod attribute;
pub mod command;
pub mod primitive;
pub mod state;
pub mod statement;
pub mod template;

pub use command::{Command, CommandView};
pub use statement::{
    ab_statement, aperture_define, aperture_define_circle, aperture_define_macro,
    aperture_define_obround, aperture_define_polygon, aperture_define_rectangle, arc_init,
    attribute_delete, attribute_on_aperture, attribute_on_file, attribute_on_object, comment,
    coordinate_digits, end_of_file, end_region, format_specification, load_mirroring,
    load_polarity, load_rotation, load_scaling, mode, operation, set_ccw_circular,
    set_current_aperture, set_cw_circular, set_linear, sr_statement, start_region, statement,
};

use statement::{
    end_of_file as eof_statement, from, newlines_end, skip_newlines, spec_statement, word,
};

verus! {

/// Why a Gerber file could not be decoded.
#[derive(Clone, Copy, Debug, PartialEq, Eq, Structural)]
pub enum GerberError {
    /// The digit counts of a coordinate format are invalid.
    CoodinateDigits,
    /// No statement starts at this byte offset.
    Lexical(usize),
    /// The input ends at this byte offset without the end of file statement.
    MissingEndOfFile(usize),
    /// Something other than line breaks follows the end of file statement,
    /// at this byte offset.
    TrailingText(usize),
}

/// `M02*` stands at `k`, and only line breaks follow it.
pub open spec fn end_of_file_at(s: Seq<u8>, k: int) -> bool {
    &&& 0 <= k
    &&& k + 4 <= s.len()
    &&& word(from(s, k), seq!['M' as u8, '0' as u8, '2' as u8, '*' as u8])
    &&& newlines_end(s, k + 4) == s.len()
}

/// The input ends with the end of file statement and line breaks.
pub open spec fn ends_with_end_of_file(s: Seq<u8>) -> bool {
    exists|k: int| end_of_file_at(s, k)
}

/// The views of the commands in `cmds`.
pub open spec fn views(cmds: Seq<Command>) -> Seq<CommandView> {
    cmds.map_values(|c: Command| c.view())
}

/// `done` followed by what `rest` holds.
pub open spec fn prepend(done: Seq<CommandView>, rest: Result<Seq<CommandView>, GerberError>) -> Result<
    Seq<CommandView>,
    GerberError,
> {
    match rest {
        Ok(r) => Ok(done + r),
        Err(e) => Err(e),
    }
}

/// What decoding the input from byte `pos` on gives: line breaks are
/// skipped, then either the input ends (no end of file), or `M02*` stands
/// there and only line breaks follow it, or one statement is read and
/// decoding goes on after it.
pub open spec fn spec_decode(s: Seq<u8>, pos: int) -> Result<Seq<CommandView>, GerberError>
    decreases s.len() - pos,
{
    let p = newlines_end(s, pos);
    if !(0 <= pos <= p <= s.len()) {
        Err(GerberError::Lexical(0))
    } else if p == s.len() {
        Err(GerberError::MissingEndOfFile(p as usize))
    } else if word(from(s, p), seq!['M' as u8, '0' as u8, '2' as u8, '*' as u8]) {
        let e = newlines_end(s, p + 4);
        if e == s.len() {
            Ok(seq![CommandView::EndOfFile])
        } else {
            Err(GerberError::TrailingText(e as usize))
        }
    } else {
        match spec_statement(from(s, p)) {
            Some((c, n)) => if 0 < n && p + n <= s.len() {
                prepend(seq![c], spec_decode(s, p + n))
            } else {
                Err(GerberError::Lexical(p as usize))
            },
            None => Err(GerberError::Lexical(p as usize)),
        }
    }
}

/// Decodes a Gerber file into its commands, in file order.
///
/// Statements are read from left to right, with line breaks between them
/// skipped; the last one must be `M02*`, and nothing but line breaks may
/// follow it. Decoding stops at the first error.
pub fn gerber(input: &[u8]) -> (r: Result<Vec<Command>, GerberError>)
    ensures
        r matches Ok(cmds) ==> {
            &&& cmds@.len() >= 1
            &&& cmds@.last() == Command::EndOfFile
            &&& forall|i: int| 0 <= i < cmds@.len() - 1 ==> !(#[trigger] cmds@[i] is EndOfFile)
            &&& ends_with_end_of_file(input@)
        },
        r matches Err(e) ==> match e {
            GerberError::Lexical(k) => k < input@.len() && spec_statement(from(input@, k as int)) is None
                && !word(from(input@, k as int), seq!['M' as u8, '0' as u8, '2' as u8, '*' as u8]),
            GerberError::MissingEndOfFile(k) => k == input@.len(),
            GerberError::TrailingText(k) => k < input@.len(),
            GerberError::CoodinateDigits => false,
        },
        !ends_with_end_of_file(input@) ==> r is Err,
        match spec_decode(input@, 0) {
            Ok(v) => r matches Ok(cmds) && views(cmds@) == v,
            Err(e) => r == Err::<Vec<Command>, GerberError>(e),
        },
{
    let mut cmds: Vec<Command> = Vec::new();
    let mut pos: usize = 0;
    assert(views(cmds@) =~= Seq::<CommandView>::empty());
    assert(prepend(Seq::<CommandView>::empty(), spec_decode(input@, 0)) == spec_decode(input@, 0)) by {
        if let Ok(v) = spec_decode(input@, 0) {
            assert(Seq::<CommandView>::empty() + v =~= v);
        }
    }
    loop
        invariant
            pos <= input@.len(),
            forall|i: int| 0 <= i < cmds@.len() ==> !(#[trigger] cmds@[i] is EndOfFile),
            prepend(views(cmds@), spec_decode(input@, pos as int)) == spec_decode(input@, 0),
        decreases input@.len() - pos,
    {
        let p = skip_newlines(input, pos);
        if p == input.len() {
            return Err(GerberError::MissingEndOfFile(p));
        }
        let rest = &input[p..input.len()];
        assert(rest@ =~= from(input@, p as int));
        if let Some((c, n)) = eof_statement(rest) {
            let e = skip_newlines(input, p + n);
            if e == input.len() {
                let ghost before = views(cmds@);
                cmds.push(c);
                assert(end_of_file_at(input@, p as int));
                assert(views(cmds@) =~= before + seq![CommandView::EndOfFile]);
                return Ok(cmds);
            }
            return Err(GerberError::TrailingText(e));
        }
        match statement::statement(rest) {
            Some((c, n)) => {
                let ghost before = views(cmds@);
                let ghost cv = c.view();
                cmds.push(c);
                proof {
                    assert(views(cmds@) =~= before.push(cv));
                    if let Ok(v) = spec_decode(input@, (p + n) as int) {
                        assert(before + (seq![cv] + v) =~= before.push(cv) + v);
                    }
                }
                pos = p + n;
            },
            None => return Err(GerberError::Lexical(p)),
        }
    }
}

} // verus!
