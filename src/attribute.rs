//! Names of file attributes.
use vstd::prelude::*;

use crate::primitive::{name, spec_name, spec_system_name, DOT};

verus! {

/// Name of a file attribute: one of the standard names, a name that starts
/// with `.` like a standard one but is not one, or a user-defined name.
#[derive(Clone, Debug, PartialEq, Eq, Hash)]
pub enum FileAttributeName {
    /// `.Part`
    Part,
    /// `.FileFunction`
    FileFunction,
    /// `.FilePolarity`
    FilePolarity,
    /// `.SameCoordinates`
    SameCoordinates,
    /// `.CreationDate`
    CreationDate,
    /// `.GenerationSoftware`
    GenerationSoftware,
    /// `.ProjectId`
    ProjectId,
    /// `.MD5`
    MD5,
    /// A name that starts with `.` but is no standard name.
    UnknownStandardName(Vec<u8>),
    /// A name that does not start with `.`.
    UserDefinedName(Vec<u8>),
}

/// The bytes of `.Part`.
pub open spec fn std_part() -> Seq<u8> {
    seq![0x2eu8, 0x50u8, 0x61u8, 0x72u8, 0x74u8]
}

/// The bytes of `.FileFunction`.
pub open spec fn std_filefunction() -> Seq<u8> {
    seq![0x2eu8, 0x46u8, 0x69u8, 0x6cu8, 0x65u8, 0x46u8, 0x75u8, 0x6eu8, 0x63u8, 0x74u8, 0x69u8, 0x6fu8, 0x6eu8]
}

/// The bytes of `.FilePolarity`.
pub open spec fn std_filepolarity() -> Seq<u8> {
    seq![0x2eu8, 0x46u8, 0x69u8, 0x6cu8, 0x65u8, 0x50u8, 0x6fu8, 0x6cu8, 0x61u8, 0x72u8, 0x69u8, 0x74u8, 0x79u8]
}

/// The bytes of `.SameCoordinates`.
pub open spec fn std_samecoordinates() -> Seq<u8> {
    seq![0x2eu8, 0x53u8, 0x61u8, 0x6du8, 0x65u8, 0x43u8, 0x6fu8, 0x6fu8, 0x72u8, 0x64u8, 0x69u8, 0x6eu8, 0x61u8, 0x74u8, 0x65u8, 0x73u8]
}

/// The bytes of `.CreationDate`.
pub open spec fn std_creationdate() -> Seq<u8> {
    seq![0x2eu8, 0x43u8, 0x72u8, 0x65u8, 0x61u8, 0x74u8, 0x69u8, 0x6fu8, 0x6eu8, 0x44u8, 0x61u8, 0x74u8, 0x65u8]
}

/// The bytes of `.GenerationSoftware`.
pub open spec fn std_generationsoftware() -> Seq<u8> {
    seq![0x2eu8, 0x47u8, 0x65u8, 0x6eu8, 0x65u8, 0x72u8, 0x61u8, 0x74u8, 0x69u8, 0x6fu8, 0x6eu8, 0x53u8, 0x6fu8, 0x66u8, 0x74u8, 0x77u8, 0x61u8, 0x72u8, 0x65u8]
}

/// The bytes of `.ProjectId`.
pub open spec fn std_projectid() -> Seq<u8> {
    seq![0x2eu8, 0x50u8, 0x72u8, 0x6fu8, 0x6au8, 0x65u8, 0x63u8, 0x74u8, 0x49u8, 0x64u8]
}

/// The bytes of `.MD5`.
pub open spec fn std_md5() -> Seq<u8> {
    seq![0x2eu8, 0x4du8, 0x44u8, 0x35u8]
}

/// A file attribute name as a value: its kind, and the bytes of a name
/// that is not standard.
pub enum AttributeNameView {
    Part,
    FileFunction,
    FilePolarity,
    SameCoordinates,
    CreationDate,
    GenerationSoftware,
    ProjectId,
    MD5,
    Unknown(Seq<u8>),
    User(Seq<u8>),
}

/// The standard attribute that `n` names, if any.
pub open spec fn standard_file_attribute(n: Seq<u8>) -> Option<FileAttributeName> {
    if n == std_part() {
        Some(FileAttributeName::Part)
    }     else if n == std_filefunction() {
        Some(FileAttributeName::FileFunction)
    }     else if n == std_filepolarity() {
        Some(FileAttributeName::FilePolarity)
    }     else if n == std_samecoordinates() {
        Some(FileAttributeName::SameCoordinates)
    }     else if n == std_creationdate() {
        Some(FileAttributeName::CreationDate)
    }     else if n == std_generationsoftware() {
        Some(FileAttributeName::GenerationSoftware)
    }     else if n == std_projectid() {
        Some(FileAttributeName::ProjectId)
    }     else if n == std_md5() {
        Some(FileAttributeName::MD5)
    } else {
        None
    }
}

/// Two byte slices hold the same bytes.
pub fn same_bytes(a: &[u8], b: &[u8]) -> (r: bool)
    ensures
        r == (a@ == b@),
{
    if a.len() != b.len() {
        return false;
    }
    let mut i: usize = 0;
    while i < a.len()
        invariant
            0 <= i <= a@.len(),
            a@.len() == b@.len(),
            forall|j: int| 0 <= j < i ==> a@[j] == b@[j],
        decreases a@.len() - i,
    {
        if a[i] != b[i] {
            return false;
        }
        i += 1;
    }
    assert(a@ =~= b@);
    true
}

/// Looks up the standard attribute that `n` names.
fn lookup_standard(n: &[u8]) -> (r: Option<FileAttributeName>)
    ensures
        r == standard_file_attribute(n@),
{
    let t = vec![0x2eu8, 0x50u8, 0x61u8, 0x72u8, 0x74u8];
    if same_bytes(n, t.as_slice()) {
        assert(t@ == std_part());
        return Some(FileAttributeName::Part);
    }
    let t = vec![0x2eu8, 0x46u8, 0x69u8, 0x6cu8, 0x65u8, 0x46u8, 0x75u8, 0x6eu8, 0x63u8, 0x74u8, 0x69u8, 0x6fu8, 0x6eu8];
    if same_bytes(n, t.as_slice()) {
        assert(t@ == std_filefunction());
        return Some(FileAttributeName::FileFunction);
    }
    let t = vec![0x2eu8, 0x46u8, 0x69u8, 0x6cu8, 0x65u8, 0x50u8, 0x6fu8, 0x6cu8, 0x61u8, 0x72u8, 0x69u8, 0x74u8, 0x79u8];
    if same_bytes(n, t.as_slice()) {
        assert(t@ == std_filepolarity());
        return Some(FileAttributeName::FilePolarity);
    }
    let t = vec![0x2eu8, 0x53u8, 0x61u8, 0x6du8, 0x65u8, 0x43u8, 0x6fu8, 0x6fu8, 0x72u8, 0x64u8, 0x69u8, 0x6eu8, 0x61u8, 0x74u8, 0x65u8, 0x73u8];
    if same_bytes(n, t.as_slice()) {
        assert(t@ == std_samecoordinates());
        return Some(FileAttributeName::SameCoordinates);
    }
    let t = vec![0x2eu8, 0x43u8, 0x72u8, 0x65u8, 0x61u8, 0x74u8, 0x69u8, 0x6fu8, 0x6eu8, 0x44u8, 0x61u8, 0x74u8, 0x65u8];
    if same_bytes(n, t.as_slice()) {
        assert(t@ == std_creationdate());
        return Some(FileAttributeName::CreationDate);
    }
    let t = vec![0x2eu8, 0x47u8, 0x65u8, 0x6eu8, 0x65u8, 0x72u8, 0x61u8, 0x74u8, 0x69u8, 0x6fu8, 0x6eu8, 0x53u8, 0x6fu8, 0x66u8, 0x74u8, 0x77u8, 0x61u8, 0x72u8, 0x65u8];
    if same_bytes(n, t.as_slice()) {
        assert(t@ == std_generationsoftware());
        return Some(FileAttributeName::GenerationSoftware);
    }
    let t = vec![0x2eu8, 0x50u8, 0x72u8, 0x6fu8, 0x6au8, 0x65u8, 0x63u8, 0x74u8, 0x49u8, 0x64u8];
    if same_bytes(n, t.as_slice()) {
        assert(t@ == std_projectid());
        return Some(FileAttributeName::ProjectId);
    }
    let t = vec![0x2eu8, 0x4du8, 0x44u8, 0x35u8];
    if same_bytes(n, t.as_slice()) {
        assert(t@ == std_md5());
        return Some(FileAttributeName::MD5);
    }
    None
}

/// What parsing an attribute name at the start of `s` gives: a name that
/// begins with `.` is a standard name or an unknown one, never a user one.
pub open spec fn spec_attribute_name(s: Seq<u8>) -> Option<(AttributeNameView, usize)> {
    match spec_name(s) {
        Some(n) => {
            let t = s.subrange(0, n as int);
            if s[0] == DOT {
                match standard_file_attribute(t) {
                    Some(a) => Some((a.view(), n)),
                    None => Some((AttributeNameView::Unknown(t), n)),
                }
            } else {
                Some((AttributeNameView::User(t), n))
            }
        },
        None => None,
    }
}

impl FileAttributeName {
    /// The name as a value.
    pub open spec fn view(&self) -> AttributeNameView {
        match self {
            FileAttributeName::Part => AttributeNameView::Part,
            FileAttributeName::FileFunction => AttributeNameView::FileFunction,
            FileAttributeName::FilePolarity => AttributeNameView::FilePolarity,
            FileAttributeName::SameCoordinates => AttributeNameView::SameCoordinates,
            FileAttributeName::CreationDate => AttributeNameView::CreationDate,
            FileAttributeName::GenerationSoftware => AttributeNameView::GenerationSoftware,
            FileAttributeName::ProjectId => AttributeNameView::ProjectId,
            FileAttributeName::MD5 => AttributeNameView::MD5,
            FileAttributeName::UnknownStandardName(v) => AttributeNameView::Unknown(v@),
            FileAttributeName::UserDefinedName(v) => AttributeNameView::User(v@),
        }
    }

    /// The name as it is written in a file.
    pub open spec fn spelling(&self) -> Seq<u8> {
        match self {
            FileAttributeName::Part => std_part(),
            FileAttributeName::FileFunction => std_filefunction(),
            FileAttributeName::FilePolarity => std_filepolarity(),
            FileAttributeName::SameCoordinates => std_samecoordinates(),
            FileAttributeName::CreationDate => std_creationdate(),
            FileAttributeName::GenerationSoftware => std_generationsoftware(),
            FileAttributeName::ProjectId => std_projectid(),
            FileAttributeName::MD5 => std_md5(),
            FileAttributeName::UnknownStandardName(v) => v@,
            FileAttributeName::UserDefinedName(v) => v@,
        }
    }

    /// Both names are spelled alike.
    pub fn same_name(&self, other: &FileAttributeName) -> (r: bool)
        ensures
            r == (self@ == other@),
    {
        match (self, other) {
            (FileAttributeName::UnknownStandardName(a), FileAttributeName::UnknownStandardName(b)) => {
                same_bytes(a.as_slice(), b.as_slice())
            },
            (FileAttributeName::UserDefinedName(a), FileAttributeName::UserDefinedName(b)) => {
                same_bytes(a.as_slice(), b.as_slice())
            },
            (FileAttributeName::Part, FileAttributeName::Part) => true,
            (FileAttributeName::FileFunction, FileAttributeName::FileFunction) => true,
            (FileAttributeName::FilePolarity, FileAttributeName::FilePolarity) => true,
            (FileAttributeName::SameCoordinates, FileAttributeName::SameCoordinates) => true,
            (FileAttributeName::CreationDate, FileAttributeName::CreationDate) => true,
            (FileAttributeName::GenerationSoftware, FileAttributeName::GenerationSoftware) => true,
            (FileAttributeName::ProjectId, FileAttributeName::ProjectId) => true,
            (FileAttributeName::MD5, FileAttributeName::MD5) => true,
            _ => false,
        }
    }

    /// Parses an attribute name: a system name is a standard attribute or an
    /// unknown standard name, never a user-defined one.
    pub fn parse(s: &[u8]) -> (r: Option<(FileAttributeName, usize)>)
        ensures
            r is Some <==> spec_name(s@) is Some,
            r matches Some((_, n)) ==> n <= s@.len(),
            match spec_attribute_name(s@) {
                Some((v, n)) => r matches Some((a, m)) && a@ == v && m == n,
                None => r is None,
            },
            r matches Some((a, n)) ==> {
                &&& spec_name(s@) == Some(n)
                &&& a.spelling() == s@.subrange(0, n as int)
                &&& (a is UserDefinedName <==> spec_system_name(s@) is None)
                &&& (a is UnknownStandardName <==> (spec_system_name(s@) is Some
                    && standard_file_attribute(s@.subrange(0, n as int)) is None))
                &&& (standard_file_attribute(s@.subrange(0, n as int)) is Some ==> Some(a)
                    == standard_file_attribute(s@.subrange(0, n as int)))
            },
    {
        let n = match name(s) {
            Some(n) => n,
            None => return None,
        };
        let text = &s[0..n];
        assert(text@ =~= s@.subrange(0, n as int));
        if s[0] == DOT {
            match lookup_standard(text) {
                Some(a) => Some((a, n)),
                None => Some((FileAttributeName::UnknownStandardName(vstd::slice::slice_to_vec(text)), n)),
            }
        } else {
            Some((FileAttributeName::UserDefinedName(vstd::slice::slice_to_vec(text)), n))
        }
    }
}

} // verus!
