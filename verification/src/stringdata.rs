//! The five optional, flag-gated string fields: name, relative path, working
//! directory, command line arguments, and icon location.  Each present field
//! is stored as a 16-bit character count followed by the encoded characters;
//! presence must match the corresponding header flag exactly.

use vstd::prelude::*;
use crate::error::{Component, Error};
use crate::header::{LinkFlags, HAS_ARGUMENTS, HAS_ICON_LOCATION, HAS_NAME, HAS_RELATIVE_PATH,
    HAS_WORKING_DIR};
use crate::strings::{lemma_read_sized_string_frame, read_sized_string, spec_read_sized_string,
    spec_write_sized_string, write_sized_string, StringEncoding};


verus! {

/// The five string fields, each optional.
#[derive(Clone, Debug)]
pub struct StringData {
    /// A description of the shortcut shown to the user.
    pub name_string: Option<String>,
    /// Where the target lives relative to the link file.
    pub relative_path: Option<String>,
    /// The working directory used when the target is activated.
    pub working_dir: Option<String>,
    /// Command line arguments passed to the target.
    pub command_line_arguments: Option<String>,
    /// Where the icon of the link is found.
    pub icon_location: Option<String>,
}

/// The mathematical value of a [`StringData`]: each field as a character
/// sequence.
pub struct StringDataV {
    /// A description of the shortcut shown to the user.
    pub name_string: Option<Seq<char>>,
    /// Where the target lives relative to the link file.
    pub relative_path: Option<Seq<char>>,
    /// The working directory used when the target is activated.
    pub working_dir: Option<Seq<char>>,
    /// Command line arguments passed to the target.
    pub command_line_arguments: Option<Seq<char>>,
    /// Where the icon of the link is found.
    pub icon_location: Option<Seq<char>>,
}

impl View for StringData {
    type V = StringDataV;

    open spec fn view(&self) -> StringDataV {
        StringDataV {
            name_string: self.name_string.deep_view(),
            relative_path: self.relative_path.deep_view(),
            working_dir: self.working_dir.deep_view(),
            command_line_arguments: self.command_line_arguments.deep_view(),
            icon_location: self.icon_location.deep_view(),
        }
    }
}

impl Default for StringData {
    /// All five fields absent.
    fn default() -> (r: Self)
        ensures
            r@ == StringDataV::spec_empty(),
    {
        StringData {
            name_string: None,
            relative_path: None,
            working_dir: None,
            command_line_arguments: None,
            icon_location: None,
        }
    }
}

impl StringDataV {
    /// The value with all five fields absent.
    pub open spec fn spec_empty() -> StringDataV {
        StringDataV {
            name_string: None,
            relative_path: None,
            working_dir: None,
            command_line_arguments: None,
            icon_location: None,
        }
    }
}

impl StringData {
    /// The name string.
    pub fn name_string(&self) -> (r: &Option<String>)
        ensures
            r.deep_view() == self@.name_string,
    {
        &self.name_string
    }

    /// The relative path.
    pub fn relative_path(&self) -> (r: &Option<String>)
        ensures
            r.deep_view() == self@.relative_path,
    {
        &self.relative_path
    }

    /// The working directory.
    pub fn working_dir(&self) -> (r: &Option<String>)
        ensures
            r.deep_view() == self@.working_dir,
    {
        &self.working_dir
    }

    /// The command line arguments.
    pub fn command_line_arguments(&self) -> (r: &Option<String>)
        ensures
            r.deep_view() == self@.command_line_arguments,
    {
        &self.command_line_arguments
    }

    /// The icon location.
    pub fn icon_location(&self) -> (r: &Option<String>)
        ensures
            r.deep_view() == self@.icon_location,
    {
        &self.icon_location
    }

    /// Replaces the name string.
    pub fn set_name_string(&mut self, v: Option<String>)
        ensures
            final(self)@ == (StringDataV { name_string: v.deep_view(), ..old(self)@ }),
    {
        self.name_string = v;
    }

    /// Replaces the relative path.
    pub fn set_relative_path(&mut self, v: Option<String>)
        ensures
            final(self)@ == (StringDataV { relative_path: v.deep_view(), ..old(self)@ }),
    {
        self.relative_path = v;
    }

    /// Replaces the working directory.
    pub fn set_working_dir(&mut self, v: Option<String>)
        ensures
            final(self)@ == (StringDataV { working_dir: v.deep_view(), ..old(self)@ }),
    {
        self.working_dir = v;
    }

    /// Replaces the command line arguments.
    pub fn set_command_line_arguments(&mut self, v: Option<String>)
        ensures
            final(self)@ == (StringDataV { command_line_arguments: v.deep_view(), ..old(self)@ }),
    {
        self.command_line_arguments = v;
    }

    /// Replaces the icon location.
    pub fn set_icon_location(&mut self, v: Option<String>)
        ensures
            final(self)@ == (StringDataV { icon_location: v.deep_view(), ..old(self)@ }),
    {
        self.icon_location = v;
    }
}

/// Equality of two optional strings, by their text.
pub fn opt_string_eq(a: &Option<String>, b: &Option<String>) -> (r: bool)
    ensures
        r == (a.deep_view() == b.deep_view()),
{
    match (a, b) {
        (Some(x), Some(y)) => x.eq(y),
        (None, None) => true,
        _ => false,
    }
}

impl PartialEq for StringData {
    fn eq(&self, other: &StringData) -> (r: bool) {
        opt_string_eq(&self.name_string, &other.name_string) && opt_string_eq(
            &self.relative_path,
            &other.relative_path,
        ) && opt_string_eq(&self.working_dir, &other.working_dir) && opt_string_eq(
            &self.command_line_arguments,
            &other.command_line_arguments,
        ) && opt_string_eq(&self.icon_location, &other.icon_location)
    }
}

impl vstd::std_specs::cmp::PartialEqSpecImpl for StringData {
    open spec fn obeys_eq_spec() -> bool {
        true
    }

    open spec fn eq_spec(&self, other: &StringData) -> bool {
        self@ == other@
    }
}

/// Presence of each string field agrees with its header flag.
pub open spec fn spec_paired(sd: StringDataV, flags: LinkFlags) -> bool {
    &&& flags.spec_has(HAS_NAME) <==> sd.name_string is Some
    &&& flags.spec_has(HAS_RELATIVE_PATH) <==> sd.relative_path is Some
    &&& flags.spec_has(HAS_WORKING_DIR) <==> sd.working_dir is Some
    &&& flags.spec_has(HAS_ARGUMENTS) <==> sd.command_line_arguments is Some
    &&& flags.spec_has(HAS_ICON_LOCATION) <==> sd.icon_location is Some
}

/// An optional string field: read only where its flag is set.
pub open spec fn spec_read_opt_sized(
    b: Seq<u8>,
    pos: int,
    present: bool,
    enc: StringEncoding,
    c: Component,
) -> Result<(Option<Seq<char>>, int), Error> {
    if present {
        match spec_read_sized_string(b, pos, enc, c) {
            Ok((s, np)) => Ok((Some(s), np)),
            Err(e) => Err(e),
        }
    } else {
        Ok((None, pos))
    }
}

/// The five string fields read in their fixed order, each gated by its flag.
pub open spec fn spec_read_string_data(b: Seq<u8>, pos: int, flags: LinkFlags, enc: StringEncoding)
    -> Result<(StringDataV, int), Error> {
    match spec_read_opt_sized(b, pos, flags.spec_has(HAS_NAME), enc, Component::NameString) {
        Err(e) => Err(e),
        Ok((name_string, p1)) => match spec_read_opt_sized(
            b,
            p1,
            flags.spec_has(HAS_RELATIVE_PATH),
            enc,
            Component::RelativePath,
        ) {
            Err(e) => Err(e),
            Ok((relative_path, p2)) => match spec_read_opt_sized(
                b,
                p2,
                flags.spec_has(HAS_WORKING_DIR),
                enc,
                Component::WorkingDir,
            ) {
                Err(e) => Err(e),
                Ok((working_dir, p3)) => match spec_read_opt_sized(
                    b,
                    p3,
                    flags.spec_has(HAS_ARGUMENTS),
                    enc,
                    Component::CommandLineArguments,
                ) {
                    Err(e) => Err(e),
                    Ok((command_line_arguments, p4)) => match spec_read_opt_sized(
                        b,
                        p4,
                        flags.spec_has(HAS_ICON_LOCATION),
                        enc,
                        Component::IconLocation,
                    ) {
                        Err(e) => Err(e),
                        Ok((icon_location, p5)) => Ok(
                            (
                                StringDataV {
                                    name_string,
                                    relative_path,
                                    working_dir,
                                    command_line_arguments,
                                    icon_location,
                                },
                                p5,
                            ),
                        ),
                    },
                },
            },
        },
    }
}

/// Reads one optional string field.
fn read_opt_sized(data: &Vec<u8>, pos: usize, present: bool, enc: StringEncoding, c: Component)
    -> (r: Result<(Option<String>, usize), Error>)
    ensures
        match r {
            Ok((s, np)) => spec_read_opt_sized(data@, pos as int, present, enc, c) == Ok::<
                _,
                Error,
            >((s.deep_view(), np as int)) && np >= pos,
            Err(e) => spec_read_opt_sized(data@, pos as int, present, enc, c) == Err::<
                (Option<Seq<char>>, int),
                _,
            >(e),
        },
{
    if present {
        match read_sized_string(data, pos, enc, c) {
            Ok((s, np)) => Ok((Some(s), np)),
            Err(e) => Err(e),
        }
    } else {
        Ok((None, pos))
    }
}

/// Decodes the five string fields at `pos`.
pub fn read_string_data(data: &Vec<u8>, pos: usize, flags: LinkFlags, enc: StringEncoding) -> (r:
    Result<(StringData, usize), Error>)
    ensures
        match r {
            Ok((sd, np)) => spec_read_string_data(data@, pos as int, flags, enc) == Ok::<_, Error>(
                (sd@, np as int),
            ) && spec_paired(sd@, flags) && np >= pos,
            Err(e) => spec_read_string_data(data@, pos as int, flags, enc) == Err::<
                (StringDataV, int),
                _,
            >(e),
        },
{
    let (name_string, p1) = match read_opt_sized(
        data,
        pos,
        flags.has(HAS_NAME),
        enc,
        Component::NameString,
    ) {
        Ok(v) => v,
        Err(e) => {
            return Err(e);
        },
    };
    let (relative_path, p2) = match read_opt_sized(
        data,
        p1,
        flags.has(HAS_RELATIVE_PATH),
        enc,
        Component::RelativePath,
    ) {
        Ok(v) => v,
        Err(e) => {
            return Err(e);
        },
    };
    let (working_dir, p3) = match read_opt_sized(
        data,
        p2,
        flags.has(HAS_WORKING_DIR),
        enc,
        Component::WorkingDir,
    ) {
        Ok(v) => v,
        Err(e) => {
            return Err(e);
        },
    };
    let (command_line_arguments, p4) = match read_opt_sized(
        data,
        p3,
        flags.has(HAS_ARGUMENTS),
        enc,
        Component::CommandLineArguments,
    ) {
        Ok(v) => v,
        Err(e) => {
            return Err(e);
        },
    };
    let (icon_location, p5) = match read_opt_sized(
        data,
        p4,
        flags.has(HAS_ICON_LOCATION),
        enc,
        Component::IconLocation,
    ) {
        Ok(v) => v,
        Err(e) => {
            return Err(e);
        },
    };
    Ok(
        (
            StringData {
                name_string,
                relative_path,
                working_dir,
                command_line_arguments,
                icon_location,
            },
            p5,
        ),
    )
}

/// The bytes one optional string field encodes to: nothing where the flag is
/// clear, and an error where flag and payload disagree.
pub open spec fn spec_write_opt_sized(
    s: Option<Seq<char>>,
    present: bool,
    enc: StringEncoding,
    c: Component,
) -> Result<Seq<u8>, Error> {
    if present {
        match s {
            Some(t) => spec_write_sized_string(t, enc, c),
            None => Err(Error::FlagMismatch(c)),
        }
    } else {
        match s {
            Some(_) => Err(Error::FlagMismatch(c)),
            None => Ok(Seq::empty()),
        }
    }
}

/// A successful optional-field read looks only at the bytes it consumes.
pub proof fn lemma_read_opt_sized_frame(
    b1: Seq<u8>,
    b2: Seq<u8>,
    pos1: int,
    pos2: int,
    n: int,
    present: bool,
    enc: StringEncoding,
    c: Component,
)
    requires
        spec_read_opt_sized(b1, pos1, present, enc, c) matches Ok(v) && v.1 == pos1 + n,
        0 <= pos2 && pos2 + n <= b2.len(),
        forall|i: int| pos1 <= i < pos1 + n ==> #[trigger] b1[i] == b2[i - pos1 + pos2],
    ensures
        spec_read_opt_sized(b2, pos2, present, enc, c) matches Ok(w) && w.0
            == spec_read_opt_sized(b1, pos1, present, enc, c)->Ok_0.0 && w.1 == pos2 + n,
{
    if present {
        lemma_read_sized_string_frame(b1, b2, pos1, pos2, n, enc, c);
    }
}

/// Encodes one optional string field.
fn write_opt_sized(
    out: &mut Vec<u8>,
    s: &Option<String>,
    present: bool,
    enc: StringEncoding,
    c: Component,
) -> (r: Result<(), Error>)
    ensures
        final(out)@.len() >= old(out)@.len(),
        forall|i: int| 0 <= i < old(out)@.len() ==> #[trigger] final(out)@[i] == old(out)@[i],
        match r {
            Ok(()) => {
                &&& spec_write_opt_sized(s.deep_view(), present, enc, c) matches Ok(w)
                    && final(out)@ == old(out)@ + w
                &&& spec_read_opt_sized(final(out)@, old(out)@.len() as int, present, enc, c)
                    == Ok::<_, Error>((s.deep_view(), final(out)@.len() as int))
            },
            Err(e) => spec_write_opt_sized(s.deep_view(), present, enc, c) == Err::<Seq<u8>, _>(e),
        },
{
    if present {
        match s {
            Some(t) => write_sized_string(out, t, enc, c),
            None => Err(Error::FlagMismatch(c)),
        }
    } else {
        match s {
            Some(_) => Err(Error::FlagMismatch(c)),
            None => {
                proof {
                    assert(final(out)@ =~= old(out)@ + Seq::<u8>::empty());
                }
                Ok(())
            },
        }
    }
}

/// The five string fields encoded in order; the first flag and payload that
/// disagree, or the first string that cannot be written, stops the encode.
pub open spec fn spec_write_string_data(sd: StringDataV, flags: LinkFlags, enc: StringEncoding)
    -> Result<Seq<u8>, Error> {
    match spec_write_opt_sized(
        sd.name_string,
        flags.spec_has(HAS_NAME),
        enc,
        Component::NameString,
    ) {
        Err(e) => Err(e),
        Ok(w1) => match spec_write_opt_sized(
            sd.relative_path,
            flags.spec_has(HAS_RELATIVE_PATH),
            enc,
            Component::RelativePath,
        ) {
            Err(e) => Err(e),
            Ok(w2) => match spec_write_opt_sized(
                sd.working_dir,
                flags.spec_has(HAS_WORKING_DIR),
                enc,
                Component::WorkingDir,
            ) {
                Err(e) => Err(e),
                Ok(w3) => match spec_write_opt_sized(
                    sd.command_line_arguments,
                    flags.spec_has(HAS_ARGUMENTS),
                    enc,
                    Component::CommandLineArguments,
                ) {
                    Err(e) => Err(e),
                    Ok(w4) => match spec_write_opt_sized(
                        sd.icon_location,
                        flags.spec_has(HAS_ICON_LOCATION),
                        enc,
                        Component::IconLocation,
                    ) {
                        Err(e) => Err(e),
                        Ok(w5) => Ok(w1 + w2 + w3 + w4 + w5),
                    },
                },
            },
        },
    }
}

/// Five optional fields written one after another at the end of `old_b` read
/// back, in order, as the five fields of `sd`.
#[verifier::rlimit(100)]
proof fn lemma_string_data_assembled(
    base: int,
    t1: Seq<u8>,
    t2: Seq<u8>,
    t3: Seq<u8>,
    t4: Seq<u8>,
    t5: Seq<u8>,
    sd: StringDataV,
    flags: LinkFlags,
    enc: StringEncoding,
)
    requires
        0 <= base <= t1.len() <= t2.len() <= t3.len() <= t4.len() <= t5.len(),
        forall|i: int| 0 <= i < t1.len() ==> #[trigger] t2[i] == t1[i],
        forall|i: int| 0 <= i < t2.len() ==> #[trigger] t3[i] == t2[i],
        forall|i: int| 0 <= i < t3.len() ==> #[trigger] t4[i] == t3[i],
        forall|i: int| 0 <= i < t4.len() ==> #[trigger] t5[i] == t4[i],
        spec_read_opt_sized(t1, base, flags.spec_has(HAS_NAME), enc, Component::NameString)
            == Ok::<_, Error>((sd.name_string, t1.len() as int)),
        spec_read_opt_sized(
            t2,
            t1.len() as int,
            flags.spec_has(HAS_RELATIVE_PATH),
            enc,
            Component::RelativePath,
        ) == Ok::<_, Error>((sd.relative_path, t2.len() as int)),
        spec_read_opt_sized(
            t3,
            t2.len() as int,
            flags.spec_has(HAS_WORKING_DIR),
            enc,
            Component::WorkingDir,
        ) == Ok::<_, Error>((sd.working_dir, t3.len() as int)),
        spec_read_opt_sized(
            t4,
            t3.len() as int,
            flags.spec_has(HAS_ARGUMENTS),
            enc,
            Component::CommandLineArguments,
        ) == Ok::<_, Error>((sd.command_line_arguments, t4.len() as int)),
        spec_read_opt_sized(
            t5,
            t4.len() as int,
            flags.spec_has(HAS_ICON_LOCATION),
            enc,
            Component::IconLocation,
        ) == Ok::<_, Error>((sd.icon_location, t5.len() as int)),
    ensures
        spec_read_string_data(t5, base, flags, enc) == Ok::<_, Error>((sd, t5.len() as int)),
{
    assert(forall|i: int| 0 <= i < t1.len() ==> #[trigger] t5[i] == t1[i]);
    assert(forall|i: int| 0 <= i < t2.len() ==> #[trigger] t5[i] == t2[i]);
    assert(forall|i: int| 0 <= i < t3.len() ==> #[trigger] t5[i] == t3[i]);
    lemma_read_opt_sized_frame(
        t1,
        t5,
        base,
        base,
        t1.len() - base,
        flags.spec_has(HAS_NAME),
        enc,
        Component::NameString,
    );
    lemma_read_opt_sized_frame(
        t2,
        t5,
        t1.len() as int,
        t1.len() as int,
        t2.len() - t1.len(),
        flags.spec_has(HAS_RELATIVE_PATH),
        enc,
        Component::RelativePath,
    );
    lemma_read_opt_sized_frame(
        t3,
        t5,
        t2.len() as int,
        t2.len() as int,
        t3.len() - t2.len(),
        flags.spec_has(HAS_WORKING_DIR),
        enc,
        Component::WorkingDir,
    );
    lemma_read_opt_sized_frame(
        t4,
        t5,
        t3.len() as int,
        t3.len() as int,
        t4.len() - t3.len(),
        flags.spec_has(HAS_ARGUMENTS),
        enc,
        Component::CommandLineArguments,
    );
    assert(spec_read_opt_sized(t5, base, flags.spec_has(HAS_NAME), enc, Component::NameString)
        == Ok::<_, Error>((sd.name_string, t1.len() as int)));
    assert(spec_read_opt_sized(
        t5,
        t1.len() as int,
        flags.spec_has(HAS_RELATIVE_PATH),
        enc,
        Component::RelativePath,
    ) == Ok::<_, Error>((sd.relative_path, t2.len() as int)));
    assert(spec_read_opt_sized(
        t5,
        t2.len() as int,
        flags.spec_has(HAS_WORKING_DIR),
        enc,
        Component::WorkingDir,
    ) == Ok::<_, Error>((sd.working_dir, t3.len() as int)));
    assert(spec_read_opt_sized(
        t5,
        t3.len() as int,
        flags.spec_has(HAS_ARGUMENTS),
        enc,
        Component::CommandLineArguments,
    ) == Ok::<_, Error>((sd.command_line_arguments, t4.len() as int)));
}

/// The five optional fields written one after another are together the bytes
/// of the whole section.
#[verifier::rlimit(100)]
proof fn lemma_string_data_bytes(
    old_b: Seq<u8>,
    t1: Seq<u8>,
    t2: Seq<u8>,
    t3: Seq<u8>,
    t4: Seq<u8>,
    t5: Seq<u8>,
    sd: StringDataV,
    flags: LinkFlags,
    enc: StringEncoding,
)
    requires
        spec_write_opt_sized(sd.name_string, flags.spec_has(HAS_NAME), enc, Component::NameString)
            matches Ok(w) && t1 == old_b + w,
        spec_write_opt_sized(
            sd.relative_path,
            flags.spec_has(HAS_RELATIVE_PATH),
            enc,
            Component::RelativePath,
        ) matches Ok(w) && t2 == t1 + w,
        spec_write_opt_sized(
            sd.working_dir,
            flags.spec_has(HAS_WORKING_DIR),
            enc,
            Component::WorkingDir,
        ) matches Ok(w) && t3 == t2 + w,
        spec_write_opt_sized(
            sd.command_line_arguments,
            flags.spec_has(HAS_ARGUMENTS),
            enc,
            Component::CommandLineArguments,
        ) matches Ok(w) && t4 == t3 + w,
        spec_write_opt_sized(
            sd.icon_location,
            flags.spec_has(HAS_ICON_LOCATION),
            enc,
            Component::IconLocation,
        ) matches Ok(w) && t5 == t4 + w,
    ensures
        spec_write_string_data(sd, flags, enc) matches Ok(w) && t5 == old_b + w,
{
    let w1 = spec_write_opt_sized(
        sd.name_string,
        flags.spec_has(HAS_NAME),
        enc,
        Component::NameString,
    )->Ok_0;
    let w2 = spec_write_opt_sized(
        sd.relative_path,
        flags.spec_has(HAS_RELATIVE_PATH),
        enc,
        Component::RelativePath,
    )->Ok_0;
    let w3 = spec_write_opt_sized(
        sd.working_dir,
        flags.spec_has(HAS_WORKING_DIR),
        enc,
        Component::WorkingDir,
    )->Ok_0;
    let w4 = spec_write_opt_sized(
        sd.command_line_arguments,
        flags.spec_has(HAS_ARGUMENTS),
        enc,
        Component::CommandLineArguments,
    )->Ok_0;
    let w5 = spec_write_opt_sized(
        sd.icon_location,
        flags.spec_has(HAS_ICON_LOCATION),
        enc,
        Component::IconLocation,
    )->Ok_0;
    assert(t5 =~= old_b + (w1 + w2 + w3 + w4 + w5));
}

/// Encodes the five string fields; on success the appended bytes read back as
/// exactly the given fields.
#[verifier::rlimit(100)]
pub fn write_string_data(out: &mut Vec<u8>, sd: &StringData, flags: LinkFlags, enc: StringEncoding)
    -> (r: Result<(), Error>)
    ensures
        final(out)@.len() >= old(out)@.len(),
        forall|i: int| 0 <= i < old(out)@.len() ==> #[trigger] final(out)@[i] == old(out)@[i],
        match r {
            Ok(()) => {
                &&& spec_write_string_data(sd@, flags, enc) matches Ok(w) && final(out)@ == old(
                    out,
                )@ + w
                &&& spec_read_string_data(final(out)@, old(out)@.len() as int, flags, enc) == Ok::<
                    _,
                    Error,
                >((sd@, final(out)@.len() as int))
            },
            Err(e) => spec_write_string_data(sd@, flags, enc) == Err::<Seq<u8>, _>(e),
        },
{
    let ghost base = out@.len() as int;
    let r1 = write_opt_sized(out, &sd.name_string, flags.has(HAS_NAME), enc, Component::NameString);
    if let Err(e) = r1 {
        return Err(e);
    }
    let ghost t1 = out@;
    let r2 = write_opt_sized(
        out,
        &sd.relative_path,
        flags.has(HAS_RELATIVE_PATH),
        enc,
        Component::RelativePath,
    );
    if let Err(e) = r2 {
        return Err(e);
    }
    let ghost t2 = out@;
    let r3 = write_opt_sized(
        out,
        &sd.working_dir,
        flags.has(HAS_WORKING_DIR),
        enc,
        Component::WorkingDir,
    );
    if let Err(e) = r3 {
        return Err(e);
    }
    let ghost t3 = out@;
    let r4 = write_opt_sized(
        out,
        &sd.command_line_arguments,
        flags.has(HAS_ARGUMENTS),
        enc,
        Component::CommandLineArguments,
    );
    if let Err(e) = r4 {
        return Err(e);
    }
    let ghost t4 = out@;
    let r5 = write_opt_sized(
        out,
        &sd.icon_location,
        flags.has(HAS_ICON_LOCATION),
        enc,
        Component::IconLocation,
    );
    if let Err(e) = r5 {
        return Err(e);
    }
    let ghost t5 = out@;
    proof {
        lemma_string_data_assembled(base, t1, t2, t3, t4, t5, sd@, flags, enc);
        lemma_string_data_bytes(old(out)@, t1, t2, t3, t4, t5, sd@, flags, enc);
    }
    Ok(())
}

} // verus!
