//! The debug-information resolver: maps a guest program counter to a
//! symbolic frame through the program image's DWARF records.
//!
//! The address-indexed lookup structures come from the `addr2line` crate
//! and are opaque here; what they answer for a given context and pc is
//! named by the uninterpreted functions `location_index` and
//! `function_index`, so that resolution is, by contract, a pure function of
//! the context and the pc. The logic around the lookups — error
//! classification at build time, the unresolved-name sentinel, the
//! treatment of a zero line number — is verified.

use vstd::prelude::*;

use addr2line::object::{Object, ObjectSection};

use crate::errors::ProfError;
use crate::frames::{Frame, FrameView, Symbol, SymbolView};

verus! {

/// The immutable resolver built once from the guest program image.
///
/// It holds the address-to-location index and inline-frame walker of
/// `addr2line`, and the raw unwind-table section kept for future guest
/// stack walking. Verus sees none of the fields: every lookup goes through
/// the trusted wrappers below, whose contracts speak of the two named
/// indices.
#[verifier::external_body]
pub struct DebugContext {
    addr_context: addr2line::Context<
        addr2line::gimli::EndianReader<addr2line::gimli::RunTimeEndian, std::sync::Arc<[u8]>>,
    >,
    debug_frame: addr2line::gimli::DebugFrame<
        addr2line::gimli::EndianReader<addr2line::gimli::RunTimeEndian, std::sync::Arc<[u8]>>,
    >,
}

/// The address-indexed resolver alone, before the unwind-table section is
/// attached. Opaque to Verus; only the build path handles it.
#[verifier::external_body]
pub struct AddrIndex {
    inner: addr2line::Context<
        addr2line::gimli::EndianReader<addr2line::gimli::RunTimeEndian, std::sync::Arc<[u8]>>,
    >,
}

/// What the context's line index holds: for each pc it can answer, the
/// source file (absent when unknown) and the raw line number (absent when
/// unknown; may be zero, which resolution treats as absent).
pub uninterp spec fn location_index(ctx: DebugContext, pc: u64) -> Option<
    (Option<Seq<u8>>, Option<u64>),
>;

/// What the context's function index holds: for each pc inside a known
/// function, the non-empty chain of demangled function names, innermost
/// first, as the inline-frame walker yields them.
pub uninterp spec fn function_index(ctx: DebugContext, pc: u64) -> Option<Seq<Seq<u8>>>;

/// Whether the image parses as an object container.
pub uninterp spec fn image_parses(image: Seq<u8>) -> bool;

/// Whether the image's DWARF records load into a resolver context.
pub uninterp spec fn dwarf_loads(image: Seq<u8>) -> bool;

/// The uncompressed contents of the image's `.debug_frame` section, absent
/// when the image does not parse or has no such section.
pub uninterp spec fn debug_frame_of(image: Seq<u8>) -> Option<Seq<u8>>;

/// The source file and line that a resolver built from exactly these image
/// bytes answers for a pc: the parse, the little-endian DWARF load and the
/// lookup are all deterministic, so this is a function of the bytes alone.
pub uninterp spec fn img_location(image: Seq<u8>, pc: u64) -> Option<
    (Option<Seq<u8>>, Option<u64>),
>;

/// The demangled function-name chain, innermost first, that a resolver
/// built from exactly these image bytes answers for a pc.
pub uninterp spec fn img_function(image: Seq<u8>, pc: u64) -> Option<Seq<Seq<u8>>>;

/// What the bare address index answers for a pc: the location half.
pub uninterp spec fn addr_location(a: AddrIndex, pc: u64) -> Option<
    (Option<Seq<u8>>, Option<u64>),
>;

/// What the bare address index answers for a pc: the function-name half.
pub uninterp spec fn addr_function(a: AddrIndex, pc: u64) -> Option<Seq<Seq<u8>>>;

/// Relies on addr2line::Context::find_location: the source file and line
/// for a pc, a pure lookup in the context's line index. A lookup error is
/// treated as no location, so resolution never fails.
#[verifier::external_body]
fn find_location(ctx: &DebugContext, pc: u64) -> (r: Option<(Option<Vec<u8>>, Option<u64>)>)
    ensures
        (r is Some) == (location_index(*ctx, pc) is Some),
        (match r {
            Some(loc) => location_index(*ctx, pc) == Some(
                (
                    (match loc.0 {
                        Some(f) => Some(f@),
                        None => None::<Seq<u8>>,
                    }),
                    loc.1,
                ),
            ),
            None => true,
        }),
{
    match ctx.addr_context.find_location(pc) {
        Ok(Some(loc)) => Some(
            (loc.file.map(|f| f.as_bytes().to_vec()), loc.line.map(|l| l as u64)),
        ),
        _ => None,
    }
}

/// Relies on addr2line::Context::find_frames, FrameIter::next,
/// FunctionName::raw_name and demangle_auto: the demangled names of the
/// functions containing a pc, innermost first, a pure lookup in the
/// context's function index. A lookup error, or a frame without a name, is
/// skipped, so resolution never fails.
#[verifier::external_body]
fn find_function_names(ctx: &DebugContext, pc: u64) -> (r: Vec<Vec<u8>>)
    ensures
        (r@.len() > 0) == (function_index(*ctx, pc) is Some),
        (match function_index(*ctx, pc) {
            Some(names) => r@.map_values(|n: Vec<u8>| n@) == names,
            None => true,
        }),
{
    let mut names: Vec<Vec<u8>> = Vec::new();
    if let Ok(mut frames) = ctx.addr_context.find_frames(pc) {
        while let Ok(Some(frame)) = frames.next() {
            if let Some(function) = frame.function {
                if let Ok(raw) = function.raw_name() {
                    names.push(
                        addr2line::demangle_auto(raw, function.language).into_owned().into_bytes(),
                    );
                }
            }
        }
    }
    names
}

/// Relies on addr2line::object::File::parse, addr2line::gimli::Dwarf::load
/// and addr2line::Context::from_dwarf: parses the image container, loads
/// its DWARF sections little-endian, and builds the address-indexed
/// resolver. The error says which of the two stages refused the image.
/// All three stages are deterministic, so the built index's answers are a
/// function of the image bytes: exactly `img_location` and `img_function`.
#[verifier::external_body]
fn parse_dwarf_context(image: &[u8]) -> (r: Result<AddrIndex, ProfError>)
    ensures
        (r is Ok) == (image_parses(image@) && dwarf_loads(image@)),
        (match r {
            Ok(_) => true,
            Err(e) => e == (if !image_parses(image@) {
                ProfError::ImageParse
            } else {
                ProfError::DebugLoad
            }),
        }),
        (r matches Ok(a) ==> forall|pc: u64| #![trigger addr_location(a, pc)]
            addr_location(a, pc) == img_location(image@, pc)),
        (r matches Ok(a) ==> forall|pc: u64| #![trigger addr_function(a, pc)]
            addr_function(a, pc) == img_function(image@, pc)),
{
    let file = addr2line::object::File::parse(image).map_err(|_| ProfError::ImageParse)?;
    let load = |id: addr2line::gimli::SectionId| -> Result<_, addr2line::gimli::Error> {
        let d = file.section_by_name(id.name()).and_then(|s| s.uncompressed_data().ok());
        Ok(addr2line::gimli::EndianArcSlice::new(
            std::sync::Arc::from(&*d.unwrap_or_default()),
            addr2line::gimli::RunTimeEndian::Little,
        ))
    };
    let dwarf = addr2line::gimli::Dwarf::load(load).map_err(|_| ProfError::DebugLoad)?;
    let context = addr2line::Context::from_dwarf(dwarf).map_err(|_| ProfError::DebugLoad)?;
    Ok(AddrIndex { inner: context })
}

/// Relies on addr2line::object::File::parse, section_by_name and
/// uncompressed_data: the raw `.debug_frame` contents, absent when the
/// image does not parse or carries no such section.
#[verifier::external_body]
fn read_debug_frame(image: &[u8]) -> (r: Option<Vec<u8>>)
    ensures
        (match r {
            Some(v) => debug_frame_of(image@) == Some(v@),
            None => debug_frame_of(image@) is None,
        }),
{
    let file = match addr2line::object::File::parse(image) {
        Ok(f) => f,
        Err(_) => {
            return None;
        },
    };
    let name = addr2line::gimli::SectionId::DebugFrame.name();
    let section = file.section_by_name(name)?;
    let data = section.uncompressed_data().ok()?;
    Some(data.into_owned())
}

/// Relies on addr2line::gimli::EndianReader::new and the section's `From`
/// impl: wraps the raw `.debug_frame` bytes as a little-endian unwind
/// table view. The unwind table takes no part in any lookup: the assembled
/// resolver answers exactly what the given address index answers.
#[verifier::external_body]
fn assemble_context(addr_context: AddrIndex, debug_frame_data: Vec<u8>) -> (r: DebugContext)
    ensures
        forall|pc: u64| #![trigger location_index(r, pc)]
            location_index(r, pc) == addr_location(addr_context, pc),
        forall|pc: u64| #![trigger function_index(r, pc)]
            function_index(r, pc) == addr_function(addr_context, pc),
{
    let reader = addr2line::gimli::EndianReader::new(
        std::sync::Arc::from(debug_frame_data.as_slice()),
        addr2line::gimli::RunTimeEndian::Little,
    );
    DebugContext { addr_context: addr_context.inner, debug_frame: reader.into() }
}

/// Build the resolver from the guest program image.
///
/// Exactly when the container does not parse, the result is `ImageParse`;
/// when the DWARF records do not load, `DebugLoad`; when the parsed image
/// has no `.debug_frame` section, `MissingDebugInfo`; otherwise the
/// resolver is built, and it indexes exactly this image's debug records:
/// every lookup it will ever answer is `img_location` / `img_function` of
/// these bytes.
pub fn build_debug_context(image: &[u8]) -> (r: Result<DebugContext, ProfError>)
    ensures
        (r is Ok) == (image_parses(image@) && dwarf_loads(image@) && debug_frame_of(image@)
            is Some),
        (match r {
            Ok(_) => true,
            Err(e) => e == (if !image_parses(image@) {
                ProfError::ImageParse
            } else if !dwarf_loads(image@) {
                ProfError::DebugLoad
            } else {
                ProfError::MissingDebugInfo
            }),
        }),
        (r matches Ok(c) ==> forall|pc: u64| #![trigger location_index(c, pc)]
            location_index(c, pc) == img_location(image@, pc)),
        (r matches Ok(c) ==> forall|pc: u64| #![trigger function_index(c, pc)]
            function_index(c, pc) == img_function(image@, pc)),
{
    let addr_context = match parse_dwarf_context(image) {
        Ok(c) => c,
        Err(e) => {
            return Err(e);
        },
    };
    let debug_frame_data = match read_debug_frame(image) {
        Some(d) => d,
        None => {
            return Err(ProfError::MissingDebugInfo);
        },
    };
    Ok(assemble_context(addr_context, debug_frame_data))
}

/// The sentinel name for an unresolved function.
pub open spec fn unknown_name() -> Seq<u8> {
    seq![63u8, 63u8]
}

/// What resolution answers for a pc: a single-symbol frame whose name is
/// the innermost function containing the pc (or the sentinel), and whose
/// file and line come from the line index, a zero line counting as absent.
pub open spec fn spec_resolve(ctx: DebugContext, pc: u64) -> FrameView {
    seq![
        SymbolView {
            name: Some(
                match function_index(ctx, pc) {
                    Some(names) => names.first(),
                    None => unknown_name(),
                },
            ),
            file: match location_index(ctx, pc) {
                Some(loc) => loc.0,
                None => None,
            },
            line: match location_index(ctx, pc) {
                Some(loc) => (match loc.1 {
                    Some(l) => (if l == 0 {
                        None
                    } else {
                        Some(l)
                    }),
                    None => None,
                }),
                None => None,
            },
        },
    ]
}

/// The bytes of the unresolved-name sentinel.
fn unknown_name_bytes() -> (r: Vec<u8>)
    ensures
        r@ == unknown_name(),
{
    let mut v: Vec<u8> = Vec::new();
    v.push(63);
    v.push(63);
    proof {
        assert(v@ =~= unknown_name());
    }
    v
}

/// Resolve a pc to its symbolic frame. Resolution is total — unresolved
/// parts become absent fields or the sentinel name — and is a pure
/// function of the context and the pc: equal arguments give equal frames.
pub fn extract_frame(pc: u64, context: &DebugContext) -> (f: Frame)
    ensures
        f@ == spec_resolve(*context, pc),
{
    let mut names = find_function_names(context, pc);
    let name: Vec<u8> = if names.len() > 0 {
        names.remove(0)
    } else {
        unknown_name_bytes()
    };
    let (file, line) = match find_location(context, pc) {
        Some((file, line)) => {
            let line = match line {
                Some(l) => (if l == 0 {
                    None
                } else {
                    Some(l)
                }),
                None => None,
            };
            (file, line)
        },
        None => (None, None),
    };
    let symbol = Symbol { name: Some(name), file, line };
    let mut stacks: Vec<Symbol> = Vec::new();
    stacks.push(symbol);
    let frame = Frame { stacks };
    proof {
        assert(frame@ =~= spec_resolve(*context, pc));
    }
    frame
}

} // verus!
