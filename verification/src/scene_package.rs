//! Scene packages: an archive of named files behind a table of contents.
//!
//! A package starts with a version string that begins with `PKGV`, then the
//! number of files, then for each file its name, its offset and its size; the
//! files' bytes follow the table, each at its offset from the table's end.
//! Numbers are 32 bits wide, least significant byte first; a string stands
//! behind its length in bytes.

use vstd::prelude::*;
use vstd::hash_map::StringHashMap;
use vstd::utf8::{decode_utf8, decode_utf8_encode_utf8, valid_utf8};
use crate::file_reading_utils::{
    le_u32, read_str, read_u32, sized_text, taken, Cursor, ReadError,
};

verus! {

/// Why bytes are no scene package.
#[derive(Clone, Copy, Debug, PartialEq, Eq, Structural)]
pub enum PackageError {
    /// The bytes end too early, or a string is not valid UTF-8.
    Read(ReadError),
    /// The version string does not begin with `PKGV`.
    BadMagic,
}

/// One line of the table of contents.
#[derive(Debug, Clone)]
pub struct FileEntry {
    pub name: String,
    pub offset: u32,
    pub size: u32,
}

/// A line of the table of contents, as a value.
pub struct EntrySpec {
    pub name: Seq<char>,
    pub offset: u32,
    pub size: u32,
}

impl View for FileEntry {
    type V = EntrySpec;

    open spec fn view(&self) -> EntrySpec {
        EntrySpec { name: self.name@, offset: self.offset, size: self.size }
    }
}

/// A file of the package.
#[derive(Debug, Clone)]
pub struct FileContent {
    name: String,
    data: Vec<u8>,
}

/// A file of the package, as a value.
pub struct ContentSpec {
    pub name: Seq<char>,
    pub data: Seq<u8>,
}

impl View for FileContent {
    type V = ContentSpec;

    closed spec fn view(&self) -> ContentSpec {
        ContentSpec { name: self.name@, data: self.data@ }
    }
}

/// The text that `String::from_utf8_lossy` makes of bytes: the text that
/// they spell, with U+FFFD in the place of each sequence that is not valid
/// UTF-8.
pub uninterp spec fn lossy_text(bytes: Seq<u8>) -> Seq<char>;

/// Reads bytes as text, leniently.
///
/// Trusted: `String::from_utf8_lossy` depends on the bytes alone, and for
/// bytes that are valid UTF-8 it returns the string that they encode.
#[verifier::external_body]
fn string_from_utf8_lossy(bytes: &Vec<u8>) -> (s: String)
    ensures
        s@ == lossy_text(bytes@),
        valid_utf8(bytes@) ==> s@ == decode_utf8(bytes@),
{
    String::from_utf8_lossy(bytes).into_owned()
}

impl FileContent {
    pub fn new(name: String, data: Vec<u8>) -> (c: Self)
        ensures
            c@ == (ContentSpec { name: name@, data: data@ }),
    {
        FileContent { name, data }
    }

    /// The file's name in the package.
    pub fn name(&self) -> (n: &String)
        ensures
            n@ == self@.name,
    {
        &self.name
    }

    /// The file as text: what its bytes spell, with U+FFFD in the place of
    /// each sequence that is not valid UTF-8.
    pub fn as_str(&self) -> (s: String)
        ensures
            s@ == lossy_text(self@.data),
            valid_utf8(self@.data) ==> s@ == decode_utf8(self@.data),
    {
        string_from_utf8_lossy(&self.data)
    }

    /// The file's bytes.
    pub fn bytes(&self) -> (b: &[u8])
        ensures
            b@ == self@.data,
    {
        self.data.as_slice()
    }
}

/// Whether a version string begins with `PKGV`.
pub open spec fn has_magic(version: Seq<u8>) -> bool {
    &&& version.len() >= 4
    &&& version[0] == 0x50
    &&& version[1] == 0x4b
    &&& version[2] == 0x47
    &&& version[3] == 0x56
}

/// The number of files that a package's head announces, and the length of
/// the head.
pub open spec fn header_of(rest: Seq<u8>) -> Result<(u32, int), PackageError> {
    if rest.len() < 4 {
        Err(PackageError::Read(ReadError::UnexpectedEof))
    } else {
        let version = sized_text(rest.skip(4), le_u32(rest));
        let after = rest.skip(4 + version.len() as int);
        if !valid_utf8(version) {
            Err(PackageError::Read(ReadError::InvalidUtf8))
        } else if !has_magic(version) {
            Err(PackageError::BadMagic)
        } else if after.len() < 4 {
            Err(PackageError::Read(ReadError::UnexpectedEof))
        } else {
            Ok((le_u32(after) as u32, 4 + version.len() as int + 4))
        }
    }
}

/// The line of the table that `rest` begins with, and its length.
pub open spec fn entry_of(rest: Seq<u8>) -> Result<(EntrySpec, int), PackageError> {
    if rest.len() < 4 {
        Err(PackageError::Read(ReadError::UnexpectedEof))
    } else {
        let name = sized_text(rest.skip(4), le_u32(rest));
        let after = rest.skip(4 + name.len() as int);
        if !valid_utf8(name) {
            Err(PackageError::Read(ReadError::InvalidUtf8))
        } else if after.len() < 8 {
            Err(PackageError::Read(ReadError::UnexpectedEof))
        } else {
            Ok(
                (
                    EntrySpec {
                        name: decode_utf8(name),
                        offset: le_u32(after) as u32,
                        size: le_u32(after.skip(4)) as u32,
                    },
                    4 + name.len() as int + 8,
                ),
            )
        }
    }
}

/// The first `count` lines of the table that `rest` begins with, and their
/// length.
pub open spec fn entries_of(rest: Seq<u8>, count: nat) -> Result<(Seq<EntrySpec>, int), PackageError>
    decreases count,
{
    if count == 0 {
        Ok((Seq::empty(), 0))
    } else {
        match entry_of(rest) {
            Err(e) => Err(e),
            Ok((entry, n)) => match entries_of(rest.skip(n), (count - 1) as nat) {
                Err(e) => Err(e),
                Ok((entries, m)) => Ok((seq![entry] + entries, n + m)),
            },
        }
    }
}

/// The lines `done`, `length` bytes long, before the lines of `more`.
pub open spec fn entries_after(
    done: Seq<EntrySpec>,
    length: int,
    more: Result<(Seq<EntrySpec>, int), PackageError>,
) -> Result<(Seq<EntrySpec>, int), PackageError> {
    match more {
        Err(e) => Err(e),
        Ok((entries, m)) => Ok((done + entries, length + m)),
    }
}

/// Where in the buffer a read of `size` bytes from `from` on begins and
/// ends.
pub open spec fn span(len: int, from: int, size: int) -> (int, int) {
    let begin = if from < len {
        from
    } else {
        len
    };
    (begin, begin + taken(len - begin, size))
}

/// The bytes of the file that `entry` describes: `entry.size` bytes from
/// `entry.offset` behind the table on, cut off at the end of the package.
pub open spec fn content_of(bytes: Seq<u8>, header_offset: int, entry: EntrySpec) -> Seq<u8> {
    let at = span(bytes.len() as int, header_offset + entry.offset, entry.size as int);
    bytes.subrange(at.0, at.1)
}

/// The files that the lines of `entries` describe, by name. Of two lines
/// with one name the later one counts.
pub open spec fn contents_of(bytes: Seq<u8>, header_offset: int, entries: Seq<EntrySpec>) -> Map<
    Seq<char>,
    ContentSpec,
>
    decreases entries.len(),
{
    if entries.len() == 0 {
        Map::empty()
    } else {
        contents_of(bytes, header_offset, entries.drop_last()).insert(
            entries.last().name,
            ContentSpec {
                name: entries.last().name,
                data: content_of(bytes, header_offset, entries.last()),
            },
        )
    }
}

/// The table of contents of a package and the length of its head and
/// table.
pub open spec fn table_of(bytes: Seq<u8>) -> Result<(Seq<EntrySpec>, int), PackageError> {
    match header_of(bytes) {
        Err(e) => Err(e),
        Ok((count, n)) => entries_after(Seq::empty(), n, entries_of(bytes.skip(n), count as nat)),
    }
}

/// The files of a package, by name.
pub open spec fn package_of(bytes: Seq<u8>) -> Result<Map<Seq<char>, ContentSpec>, PackageError> {
    match table_of(bytes) {
        Err(e) => Err(e),
        Ok((entries, n)) => Ok(contents_of(bytes, n, entries)),
    }
}

/// The lines as values.
pub open spec fn entry_views(entries: Seq<FileEntry>) -> Seq<EntrySpec> {
    entries.map_values(|e: FileEntry| e@)
}

/// Reads the head of a package: the version string, which must begin with
/// `PKGV`, and the number of files.
pub fn read_header(cursor: &mut Cursor) -> (r: Result<u32, PackageError>)
    ensures
        final(cursor).bytes() == old(cursor).bytes(),
        r is Ok <==> header_of(old(cursor).rest()) is Ok,
        r is Err ==> header_of(old(cursor).rest()) == Err::<(u32, int), PackageError>(r->Err_0),
        r matches Ok(count) ==> {
            &&& count == header_of(old(cursor).rest())->Ok_0.0
            &&& final(cursor).advanced(old(cursor), header_of(old(cursor).rest())->Ok_0.1)
        },
{
    let ghost rest = cursor.rest();
    let version: String = match read_str(cursor) {
        Ok(v) => v,
        Err(e) => {
            return Err(PackageError::Read(e));
        },
    };
    let ghost text = sized_text(rest.skip(4), le_u32(rest));
    proof {
        decode_utf8_encode_utf8(text);
        assert(cursor.rest() =~= rest.skip(4 + text.len() as int));
    }
    let bytes: &[u8] = version.as_str().as_bytes();
    if bytes.len() < 4 || bytes[0] != 0x50 || bytes[1] != 0x4b || bytes[2] != 0x47 || bytes[3]
        != 0x56 {
        return Err(PackageError::BadMagic);
    }
    let ghost behind_version: Cursor = *cursor;
    match read_u32(cursor) {
        Ok(count) => {
            proof {
                cursor.lemma_advanced_twice(
                    &behind_version,
                    old(cursor),
                    4 + text.len() as int,
                    4,
                );
            }
            Ok(count)
        },
        Err(e) => Err(PackageError::Read(e)),
    }
}

/// Reads one line of the table of contents.
pub fn read_entry(cursor: &mut Cursor) -> (r: Result<FileEntry, PackageError>)
    ensures
        final(cursor).bytes() == old(cursor).bytes(),
        r is Ok <==> entry_of(old(cursor).rest()) is Ok,
        r is Err ==> entry_of(old(cursor).rest()) == Err::<(EntrySpec, int), PackageError>(
            r->Err_0,
        ),
        r matches Ok(entry) ==> {
            &&& entry@ == entry_of(old(cursor).rest())->Ok_0.0
            &&& final(cursor).advanced(old(cursor), entry_of(old(cursor).rest())->Ok_0.1)
            &&& final(cursor).rest() == old(cursor).rest().skip(
                entry_of(old(cursor).rest())->Ok_0.1,
            )
        },
{
    let ghost rest = cursor.rest();
    let name: String = match read_str(cursor) {
        Ok(v) => v,
        Err(e) => {
            return Err(PackageError::Read(e));
        },
    };
    let ghost text = sized_text(rest.skip(4), le_u32(rest));
    let ghost after = rest.skip(4 + text.len() as int);
    proof {
        assert(cursor.rest() =~= after);
    }
    let ghost behind_name: Cursor = *cursor;
    let offset: u32 = match read_u32(cursor) {
        Ok(v) => v,
        Err(e) => {
            return Err(PackageError::Read(e));
        },
    };
    let ghost behind_offset: Cursor = *cursor;
    proof {
        cursor.lemma_advanced_twice(&behind_name, old(cursor), 4 + text.len() as int, 4);
    }
    let size: u32 = match read_u32(cursor) {
        Ok(v) => v,
        Err(e) => {
            return Err(PackageError::Read(e));
        },
    };
    proof {
        cursor.lemma_advanced_twice(&behind_offset, old(cursor), 4 + text.len() as int + 4, 4);
    }
    Ok(FileEntry { name, offset, size })
}

/// Reads `file_count` lines of the table of contents.
pub fn read_files(cursor: &mut Cursor, file_count: u32) -> (r: Result<Vec<FileEntry>, PackageError>)
    ensures
        final(cursor).bytes() == old(cursor).bytes(),
        r is Ok <==> entries_of(old(cursor).rest(), file_count as nat) is Ok,
        r is Err ==> entries_of(old(cursor).rest(), file_count as nat) == Err::<
            (Seq<EntrySpec>, int),
            PackageError,
        >(r->Err_0),
        r matches Ok(files) ==> {
            &&& entry_views(files@) == entries_of(old(cursor).rest(), file_count as nat)->Ok_0.0
            &&& final(cursor).advanced(
                old(cursor),
                entries_of(old(cursor).rest(), file_count as nat)->Ok_0.1,
            )
        },
{
    let mut files: Vec<FileEntry> = Vec::new();
    let ghost rest = cursor.rest();
    let ghost mut length: int = 0;
    let mut i: u32 = 0;
    proof {
        cursor.lemma_advanced_zero();
        assert(entry_views(files@) =~= Seq::<EntrySpec>::empty());
        match entries_of(rest, file_count as nat) {
            Ok((entries, m)) => {
                assert(Seq::<EntrySpec>::empty() + entries =~= entries);
            },
            Err(_) => {},
        }
    }
    while i < file_count
        invariant
            i <= file_count,
            cursor.bytes() == old(cursor).bytes(),
            cursor.advanced(old(cursor), length),
            length >= 0,
            rest == old(cursor).rest(),
            files@.len() == i,
            entries_of(rest, file_count as nat) == entries_after(
                entry_views(files@),
                length,
                entries_of(cursor.rest(), (file_count - i) as nat),
            ),
        decreases file_count - i,
    {
        let ghost here = cursor.rest();
        let ghost before = entry_views(files@);
        let ghost at_entry: Cursor = *cursor;
        let entry: FileEntry = match read_entry(cursor) {
            Ok(e) => e,
            Err(e) => {
                proof {
                    assert(entries_of(here, (file_count - i) as nat) == Err::<
                        (Seq<EntrySpec>, int),
                        PackageError,
                    >(e));
                }
                return Err(e);
            },
        };
        files.push(entry);
        proof {
            let n = entry_of(here)->Ok_0.1;
            assert(entry_views(files@) =~= before + seq![entry@]);
            cursor.lemma_advanced_twice(&at_entry, old(cursor), length, n);
            match entries_of(here.skip(n), (file_count - i - 1) as nat) {
                Ok((entries, m)) => {
                    assert(before + (seq![entry@] + entries) == (before + seq![entry@]) + entries);
                },
                Err(_) => {},
            }
            length = length + n;
        }
        i = i + 1;
    }
    proof {
        assert(entry_views(files@) + Seq::<EntrySpec>::empty() == entry_views(files@));
    }
    Ok(files)
}

/// Reads the file that `file` describes: its bytes begin `file.offset`
/// bytes behind `header_offset` and are `file.size` long, or as long as the
/// package reaches.
pub fn read_file(cursor: &mut Cursor, header_offset: u64, file: &FileEntry) -> (content: FileContent)
    ensures
        final(cursor).bytes() == old(cursor).bytes(),
        content@ == (ContentSpec {
            name: file@.name,
            data: content_of(old(cursor).bytes(), header_offset as int, file@),
        }),
        final(cursor).spec_position() == if header_offset + file.offset < old(cursor).bytes().len() {
            header_offset + file.offset + content@.data.len()
        } else if header_offset + file.offset <= u64::MAX {
            header_offset + file.offset
        } else {
            u64::MAX as int
        },
{
    let from: u64 = if header_offset <= u64::MAX - file.offset as u64 {
        header_offset + file.offset as u64
    } else {
        u64::MAX
    };
    let len: usize = cursor.get_ref().len();
    cursor.set_position(from);
    let data: Vec<u8> = cursor.take(file.size as usize);
    proof {
        let at = span(
            old(cursor).bytes().len() as int,
            header_offset + file.offset,
            file.size as int,
        );
        assert(data@ =~= old(cursor).bytes().subrange(at.0, at.1));
    }
    FileContent { name: file.name.clone(), data }
}

/// The files as values.
pub open spec fn content_views(files: Map<Seq<char>, FileContent>) -> Map<Seq<char>, ContentSpec> {
    Map::new(|name: Seq<char>| files.contains_key(name), |name: Seq<char>| files[name]@)
}

/// An unpacked scene package.
pub struct ScenePackage {
    /// The files by name.
    pub contents: StringHashMap<FileContent>,
    /// The table of contents, in the order of the package.
    pub entries: Vec<FileEntry>,
}

impl View for ScenePackage {
    type V = Map<Seq<char>, ContentSpec>;

    /// The files by name, as values.
    open spec fn view(&self) -> Map<Seq<char>, ContentSpec> {
        content_views(self.contents@)
    }
}

impl ScenePackage {
    /// Unpacks the bytes of a package.
    pub fn new(data: Vec<u8>) -> (r: Result<Self, PackageError>)
        ensures
            r is Ok <==> package_of(data@) is Ok,
            r is Err ==> package_of(data@) == Err::<Map<Seq<char>, ContentSpec>, PackageError>(
                r->Err_0,
            ),
            r matches Ok(package) ==> {
                &&& package@ == package_of(data@)->Ok_0
                &&& entry_views(package.entries@) == table_of(data@)->Ok_0.0
            },
    {
        let mut cursor: Cursor = Cursor::new(data);
        proof {
            assert(cursor.rest() == data@);
        }
        let file_count: u32 = match read_header(&mut cursor) {
            Ok(n) => n,
            Err(e) => {
                return Err(e);
            },
        };
        let ghost head: int = header_of(data@)->Ok_0.1;
        proof {
            assert(cursor.rest() == data@.skip(head));
        }
        let entries: Vec<FileEntry> = match read_files(&mut cursor, file_count) {
            Ok(f) => f,
            Err(e) => {
                return Err(e);
            },
        };
        let header_offset: u64 = cursor.position();
        let ghost table = entry_views(entries@);
        proof {
            assert(Seq::<EntrySpec>::empty() + table == table);
        }
        let mut contents: StringHashMap<FileContent> = StringHashMap::new();
        let mut i: usize = 0;
        while i < entries.len()
            invariant
                i <= entries@.len(),
                cursor.bytes() == data@,
                table == entry_views(entries@),
                content_views(contents@) == contents_of(
                    data@,
                    header_offset as int,
                    table.take(i as int),
                ),
            decreases entries@.len() - i,
        {
            let content: FileContent = read_file(&mut cursor, header_offset, &entries[i]);
            let ghost before = contents@;
            let name: String = entries[i].name.clone();
            proof {
                assert(table.take(i + 1).drop_last() =~= table.take(i as int));
                assert(table.take(i + 1).last() == entries@[i as int]@);
                assert(content_views(before.insert(name@, content)) =~= content_views(
                    before,
                ).insert(name@, content@));
            }
            contents.insert(name, content);
            i = i + 1;
        }
        proof {
            assert(table.take(entries@.len() as int) =~= table);
        }
        Ok(ScenePackage { contents, entries })
    }

    /// The file with the given name, if the package holds one.
    pub fn get_file(&self, name: &str) -> (r: Option<&FileContent>)
        ensures
            r is Some <==> self@.contains_key(name@),
            r matches Some(content) ==> content@ == self@[name@],
    {
        self.contents.get(name)
    }
}

} // verus!
