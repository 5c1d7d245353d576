//! The compression types, their packed ids and their file extensions.
use vstd::prelude::*;

use crate::text;
use crate::text::ends_with;

verus! {

/// How a repository file is compressed.
#[derive(Debug, Clone, Copy, PartialEq, Eq, Hash, Structural)]
pub enum CompressType {
    /// No compression.
    Uncompressed,
    /// bzip2 (`.bz2`).
    Bz2,
    /// gzip (`.gz`).
    Gz,
    /// LZ4 frame (`.lz4`).
    Lz4,
    /// Zstandard (`.zst`).
    Zst,
    /// xz (`.xz`); known by name only.
    Xz,
}

/// The packed id under which a type is configured.
pub open spec fn type_id(ty: CompressType) -> u64 {
    match ty {
        CompressType::Uncompressed => 0x2b_9ee0,
        CompressType::Bz2 => 0x7_3420,
        CompressType::Gz => 0x3470,
        CompressType::Lz4 => 0x20_68c1,
        CompressType::Zst => 0x5_27a0,
        CompressType::Xz => 0x3580,
    }
}

/// The extension that files of a type carry.
pub open spec fn extension(ty: CompressType) -> Seq<char> {
    match ty {
        CompressType::Uncompressed => ""@,
        CompressType::Bz2 => ".bz2"@,
        CompressType::Gz => ".gz"@,
        CompressType::Lz4 => ".lz4"@,
        CompressType::Zst => ".zst"@,
        CompressType::Xz => ".xz"@,
    }
}

/// The type with the packed id `id`, where there is one.
pub fn type_enum(id: u64) -> (r: Option<CompressType>)
    ensures
        match r {
            Some(ty) => type_id(ty) == id,
            None => forall|ty: CompressType| type_id(ty) != id,
        },
{
    if id == 0x2b_9ee0 {
        Some(CompressType::Uncompressed)
    } else if id == 0x7_3420 {
        Some(CompressType::Bz2)
    } else if id == 0x3470 {
        Some(CompressType::Gz)
    } else if id == 0x20_68c1 {
        Some(CompressType::Lz4)
    } else if id == 0x5_27a0 {
        Some(CompressType::Zst)
    } else if id == 0x3580 {
        Some(CompressType::Xz)
    } else {
        None
    }
}

/// No two types share an id.
pub proof fn law_type_ids_differ(a: CompressType, b: CompressType)
    requires
        type_id(a) == type_id(b),
    ensures
        a == b,
{
}

/// The extension that files of a type carry.
pub fn type_extension(ty: CompressType) -> (r: &'static str)
    ensures
        r@ == extension(ty),
{
    match ty {
        CompressType::Uncompressed => "",
        CompressType::Bz2 => ".bz2",
        CompressType::Gz => ".gz",
        CompressType::Lz4 => ".lz4",
        CompressType::Zst => ".zst",
        CompressType::Xz => ".xz",
    }
}

/// Whether the file name `name` carries the extension of a type that compresses.
pub open spec fn named_as(name: Seq<char>, ty: CompressType) -> bool {
    ty != CompressType::Uncompressed && text::has_suffix(name, extension(ty))
}

/// The type that a file name's extension tells; `Uncompressed` where it tells none.
pub fn type_from_name(name: &str) -> (r: CompressType)
    ensures
        forall|ty: CompressType| ty != CompressType::Uncompressed ==> (r == ty <==> #[trigger] named_as(name@, ty)),
        r != CompressType::Uncompressed ==> named_as(name@, r),
        r == CompressType::Uncompressed ==> !named_as(name@, CompressType::Bz2) && !named_as(name@, CompressType::Gz)
            && !named_as(name@, CompressType::Lz4) && !named_as(name@, CompressType::Zst) && !named_as(
            name@,
            CompressType::Xz,
        ),
{
    proof {
        law_one_extension_fits(name@);
    }
    if ends_with(name, ".bz2") {
        assert(named_as(name@, CompressType::Bz2));
        CompressType::Bz2
    } else if ends_with(name, ".gz") {
        assert(named_as(name@, CompressType::Gz));
        CompressType::Gz
    } else if ends_with(name, ".lz4") {
        assert(named_as(name@, CompressType::Lz4));
        CompressType::Lz4
    } else if ends_with(name, ".zst") {
        assert(named_as(name@, CompressType::Zst));
        CompressType::Zst
    } else if ends_with(name, ".xz") {
        assert(named_as(name@, CompressType::Xz));
        CompressType::Xz
    } else {
        CompressType::Uncompressed
    }
}

/// A file name carries the extension of at most one type.
pub proof fn law_one_extension_fits(name: Seq<char>)
    ensures
        forall|a: CompressType, b: CompressType|
            #[trigger] named_as(name, a) && #[trigger] named_as(name, b) ==> a == b,
{
    reveal_strlit(".bz2");
    reveal_strlit(".gz");
    reveal_strlit(".lz4");
    reveal_strlit(".zst");
    reveal_strlit(".xz");
    assert forall|a: CompressType, b: CompressType|
        #[trigger] named_as(name, a) && #[trigger] named_as(name, b) implies a == b by {
        let n = name.len() as int;
        let x = extension(a);
        let y = extension(b);
        assert(name.skip(n - x.len())[x.len() - 1] == name[n - 1]);
        assert(name.skip(n - y.len())[y.len() - 1] == name[n - 1]);
        assert(name.skip(n - x.len())[x.len() - 2] == name[n - 2]);
        assert(name.skip(n - y.len())[y.len() - 2] == name[n - 2]);
    }
}

/// A file name that a type's extension was appended to tells that type.
pub proof fn law_extension_tells_type(base: Seq<char>, ty: CompressType)
    requires
        ty != CompressType::Uncompressed,
    ensures
        named_as(base + extension(ty), ty),
        forall|other: CompressType| #[trigger] named_as(base + extension(ty), other) ==> other == ty,
{
    let name = base + extension(ty);
    assert(name.skip(name.len() - extension(ty).len()) =~= extension(ty));
    law_one_extension_fits(name);
    assert(named_as(name, ty));
}

/// Each type is configured under its own id and files of it carry its own extension; an id
/// that no type has is told apart, and none means that nothing is appended.
pub proof fn law_ids_and_extensions(ty: CompressType, ext: &str, id: u64, r: Option<CompressType>)
    requires
        call_ensures(type_extension, (ty,), ext),
        call_ensures(type_enum, (id,), r),
    ensures
        ty == CompressType::Uncompressed ==> ext@.len() == 0,
        ty == CompressType::Bz2 ==> ext@ == ".bz2"@,
        ty == CompressType::Gz ==> ext@ == ".gz"@,
        ty == CompressType::Lz4 ==> ext@ == ".lz4"@,
        ty == CompressType::Zst ==> ext@ == ".zst"@,
        ty == CompressType::Xz ==> ext@ == ".xz"@,
        r == Some(CompressType::Uncompressed) <==> id == 0x2b9ee0,
        r == Some(CompressType::Bz2) <==> id == 0x73420,
        r == Some(CompressType::Gz) <==> id == 0x3470,
        r == Some(CompressType::Lz4) <==> id == 0x2068c1,
        r == Some(CompressType::Zst) <==> id == 0x527a0,
        r == Some(CompressType::Xz) <==> id == 0x3580,
{
    reveal_strlit("");
    assert(type_id(CompressType::Uncompressed) == 0x2b9ee0);
    assert(type_id(CompressType::Bz2) == 0x73420);
    assert(type_id(CompressType::Gz) == 0x3470);
    assert(type_id(CompressType::Lz4) == 0x2068c1);
    assert(type_id(CompressType::Zst) == 0x527a0);
    assert(type_id(CompressType::Xz) == 0x3580);
}

/// A file's type is told by what its name ends in: a name that a type's extension was
/// appended to tells that type, and a name that ends in no extension tells none.
pub proof fn law_name_tells_its_type(base: Seq<char>, ty: CompressType, ext: &str, name: &str, r: CompressType)
    requires
        call_ensures(type_from_name, (name,), r),
        call_ensures(type_extension, (ty,), ext),
        ty != CompressType::Uncompressed,
    ensures
        name@ == base + ext@ ==> r == ty,
        r == ty ==> name@.len() >= ext@.len() && name@.skip(name@.len() - ext@.len()) == ext@,
{
    if name@ == base + ext@ {
        law_extension_tells_type(base, ty);
        law_one_extension_fits(name@);
    }
}

}
