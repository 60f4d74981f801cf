use ckb_vm_pprof::errors::ProfError;
use ckb_vm_pprof::frames::{frame_eq, Frame, Report, Symbol};
use ckb_vm_pprof::pprof::{push_uint_field, push_varint, render_profile};
use ckb_vm_pprof::resolver::{build_debug_context, extract_frame};
use ckb_vm_pprof::session::{
    is_profiler_started, record_tick, slot_machine_addr, start_commit, start_prepare, stop_take,
    ProfilerSlot,
};
use ckb_vm_pprof::timer::{period_micros, Timer, Timing};

/// Build a minimal little-endian ELF64 relocatable image holding the given
/// sections (name, sh_type, contents), plus the null section and the
/// section-name string table.
fn build_elf(sections: &[(&str, u32, &[u8])]) -> Vec<u8> {
    let shnum = sections.len() + 2; // null + sections + .shstrtab
    let shoff = 64usize;
    let mut shstrtab: Vec<u8> = vec![0];
    let mut name_offsets: Vec<u32> = Vec::new();
    for (name, _, _) in sections {
        name_offsets.push(shstrtab.len() as u32);
        shstrtab.extend_from_slice(name.as_bytes());
        shstrtab.push(0);
    }
    let shstrtab_name_off = shstrtab.len() as u32;
    shstrtab.extend_from_slice(b".shstrtab");
    shstrtab.push(0);

    let data_start = shoff + 64 * shnum;
    let mut data: Vec<u8> = Vec::new();
    let mut offsets: Vec<(usize, usize)> = Vec::new(); // (offset, size) per section
    for (_, _, contents) in sections {
        offsets.push((data_start + data.len(), contents.len()));
        data.extend_from_slice(contents);
    }
    let shstrtab_off = data_start + data.len();
    data.extend_from_slice(&shstrtab);

    let mut out: Vec<u8> = Vec::new();
    // ELF header
    out.extend_from_slice(&[0x7f, b'E', b'L', b'F', 2, 1, 1, 0, 0, 0, 0, 0, 0, 0, 0, 0]);
    out.extend_from_slice(&1u16.to_le_bytes()); // e_type = ET_REL
    out.extend_from_slice(&0xf3u16.to_le_bytes()); // e_machine = RISC-V
    out.extend_from_slice(&1u32.to_le_bytes()); // e_version
    out.extend_from_slice(&0u64.to_le_bytes()); // e_entry
    out.extend_from_slice(&0u64.to_le_bytes()); // e_phoff
    out.extend_from_slice(&(shoff as u64).to_le_bytes()); // e_shoff
    out.extend_from_slice(&0u32.to_le_bytes()); // e_flags
    out.extend_from_slice(&64u16.to_le_bytes()); // e_ehsize
    out.extend_from_slice(&0u16.to_le_bytes()); // e_phentsize
    out.extend_from_slice(&0u16.to_le_bytes()); // e_phnum
    out.extend_from_slice(&64u16.to_le_bytes()); // e_shentsize
    out.extend_from_slice(&(shnum as u16).to_le_bytes()); // e_shnum
    out.extend_from_slice(&((shnum - 1) as u16).to_le_bytes()); // e_shstrndx

    let mut push_shdr = |name: u32, sh_type: u32, offset: u64, size: u64, out: &mut Vec<u8>| {
        out.extend_from_slice(&name.to_le_bytes());
        out.extend_from_slice(&sh_type.to_le_bytes());
        out.extend_from_slice(&0u64.to_le_bytes()); // sh_flags
        out.extend_from_slice(&0u64.to_le_bytes()); // sh_addr
        out.extend_from_slice(&offset.to_le_bytes());
        out.extend_from_slice(&size.to_le_bytes());
        out.extend_from_slice(&0u32.to_le_bytes()); // sh_link
        out.extend_from_slice(&0u32.to_le_bytes()); // sh_info
        out.extend_from_slice(&1u64.to_le_bytes()); // sh_addralign
        out.extend_from_slice(&0u64.to_le_bytes()); // sh_entsize
    };

    // null section header
    push_shdr(0, 0, 0, 0, &mut out);
    for (i, (_, sh_type, _)) in sections.iter().enumerate() {
        push_shdr(
            name_offsets[i],
            *sh_type,
            offsets[i].0 as u64,
            offsets[i].1 as u64,
            &mut out,
        );
    }
    // .shstrtab header (SHT_STRTAB = 3)
    push_shdr(
        shstrtab_name_off,
        3,
        shstrtab_off as u64,
        shstrtab.len() as u64,
        &mut out,
    );
    out.extend_from_slice(&data);
    out
}

fn elf_with_debug_frame() -> Vec<u8> {
    build_elf(&[(".debug_frame", 1, &[])])
}

fn elf_without_debug_frame() -> Vec<u8> {
    build_elf(&[(".text", 1, &[0u8; 4])])
}

/// A DWARF abbreviation table: a compile unit with low/high pc, containing
/// a subprogram with a name and low/high pc.
fn debug_abbrev_section() -> Vec<u8> {
    vec![
        0x01, 0x11, 0x01, // code 1: DW_TAG_compile_unit, has children
        0x11, 0x01, // DW_AT_low_pc, DW_FORM_addr
        0x12, 0x07, // DW_AT_high_pc, DW_FORM_data8
        0x00, 0x00, // end of attributes
        0x02, 0x2e, 0x00, // code 2: DW_TAG_subprogram, no children
        0x03, 0x08, // DW_AT_name, DW_FORM_string
        0x11, 0x01, // DW_AT_low_pc, DW_FORM_addr
        0x12, 0x07, // DW_AT_high_pc, DW_FORM_data8
        0x00, 0x00, // end of attributes
        0x00, // end of abbreviations
    ]
}

/// A DWARF compile unit describing a function `foo` at `[0x1000, 0x1100)`.
fn debug_info_section() -> Vec<u8> {
    let mut body: Vec<u8> = Vec::new();
    // compile unit DIE
    body.push(0x01);
    body.extend_from_slice(&0x1000u64.to_le_bytes()); // low_pc
    body.extend_from_slice(&0x100u64.to_le_bytes()); // high_pc (offset)
    // subprogram DIE
    body.push(0x02);
    body.extend_from_slice(b"foo\0");
    body.extend_from_slice(&0x1000u64.to_le_bytes());
    body.extend_from_slice(&0x100u64.to_le_bytes());
    body.push(0x00); // end of children

    let mut out: Vec<u8> = Vec::new();
    out.extend_from_slice(&((7 + body.len()) as u32).to_le_bytes()); // unit_length
    out.extend_from_slice(&4u16.to_le_bytes()); // version
    out.extend_from_slice(&0u32.to_le_bytes()); // debug_abbrev_offset
    out.push(8); // address_size
    out.extend_from_slice(&body);
    out
}

fn elf_with_foo() -> Vec<u8> {
    let info = debug_info_section();
    let abbrev = debug_abbrev_section();
    build_elf(&[
        (".debug_info", 1, &info),
        (".debug_abbrev", 1, &abbrev),
        (".debug_frame", 1, &[]),
    ])
}

/// Like `debug_abbrev_section`, but the compile unit also refers to a line
/// program (DW_AT_stmt_list, DW_FORM_sec_offset).
fn debug_abbrev_with_lines() -> Vec<u8> {
    vec![
        0x01, 0x11, 0x01, // code 1: DW_TAG_compile_unit, has children
        0x11, 0x01, // DW_AT_low_pc, DW_FORM_addr
        0x12, 0x07, // DW_AT_high_pc, DW_FORM_data8
        0x10, 0x17, // DW_AT_stmt_list, DW_FORM_sec_offset
        0x00, 0x00, // end of attributes
        0x02, 0x2e, 0x00, // code 2: DW_TAG_subprogram, no children
        0x03, 0x08, // DW_AT_name, DW_FORM_string
        0x11, 0x01, // DW_AT_low_pc, DW_FORM_addr
        0x12, 0x07, // DW_AT_high_pc, DW_FORM_data8
        0x00, 0x00, // end of attributes
        0x00, // end of abbreviations
    ]
}

/// Like `debug_info_section`, with a DW_AT_stmt_list at offset zero.
fn debug_info_with_lines() -> Vec<u8> {
    let mut body: Vec<u8> = Vec::new();
    body.push(0x01);
    body.extend_from_slice(&0x1000u64.to_le_bytes());
    body.extend_from_slice(&0x100u64.to_le_bytes());
    body.extend_from_slice(&0u32.to_le_bytes()); // stmt_list offset
    body.push(0x02);
    body.extend_from_slice(b"foo\0");
    body.extend_from_slice(&0x1000u64.to_le_bytes());
    body.extend_from_slice(&0x100u64.to_le_bytes());
    body.push(0x00);

    let mut out: Vec<u8> = Vec::new();
    out.extend_from_slice(&((7 + body.len()) as u32).to_le_bytes());
    out.extend_from_slice(&4u16.to_le_bytes());
    out.extend_from_slice(&0u32.to_le_bytes());
    out.push(8);
    out.extend_from_slice(&body);
    out
}

/// A DWARF line program mapping `[0x1000, 0x1100)` to `bar.rs`, at the
/// line reached by the given DW_LNS_advance_line operand (SLEB128).
fn debug_line_section_at(line_advance: &[u8]) -> Vec<u8> {
    let mut header: Vec<u8> = Vec::new();
    header.push(1); // minimum_instruction_length
    header.push(1); // maximum_operations_per_instruction
    header.push(1); // default_is_stmt
    header.push(0xfb); // line_base = -5
    header.push(14); // line_range
    header.push(13); // opcode_base
    header.extend_from_slice(&[0, 1, 1, 1, 1, 0, 0, 0, 1, 0, 0, 1]); // standard opcode lengths
    header.push(0); // no include directories
    header.extend_from_slice(b"bar.rs\0"); // file entry: name
    header.extend_from_slice(&[0, 0, 0]); // dir 0, mtime 0, length 0
    header.push(0); // end of file entries

    let mut program: Vec<u8> = Vec::new();
    program.extend_from_slice(&[0x00, 0x09, 0x02]); // DW_LNE_set_address
    program.extend_from_slice(&0x1000u64.to_le_bytes());
    program.push(0x03); // DW_LNS_advance_line
    program.extend_from_slice(line_advance);
    program.push(0x01); // DW_LNS_copy
    program.extend_from_slice(&[0x02, 0x80, 0x02]); // DW_LNS_advance_pc 256
    program.extend_from_slice(&[0x00, 0x01, 0x01]); // DW_LNE_end_sequence

    let mut out: Vec<u8> = Vec::new();
    let header_length = (header.len()) as u32;
    let unit_length = (2 + 4 + header.len() + program.len()) as u32;
    out.extend_from_slice(&unit_length.to_le_bytes());
    out.extend_from_slice(&4u16.to_le_bytes()); // version
    out.extend_from_slice(&header_length.to_le_bytes());
    out.extend_from_slice(&header);
    out.extend_from_slice(&program);
    out
}

/// A DWARF line program mapping `[0x1000, 0x1100)` to `bar.rs` line 7.
fn debug_line_section() -> Vec<u8> {
    debug_line_section_at(&[0x06]) // advance +6 from 1 -> line 7
}

fn elf_with_foo_and_lines() -> Vec<u8> {
    let info = debug_info_with_lines();
    let abbrev = debug_abbrev_with_lines();
    let line = debug_line_section();
    build_elf(&[
        (".debug_info", 1, &info),
        (".debug_abbrev", 1, &abbrev),
        (".debug_line", 1, &line),
        (".debug_frame", 1, &[]),
    ])
}

fn elf_with_foo_at_line_zero() -> Vec<u8> {
    let info = debug_info_with_lines();
    let abbrev = debug_abbrev_with_lines();
    let line = debug_line_section_at(&[0x7f]); // advance -1 from 1 -> line 0
    build_elf(&[
        (".debug_info", 1, &info),
        (".debug_abbrev", 1, &abbrev),
        (".debug_line", 1, &line),
        (".debug_frame", 1, &[]),
    ])
}

fn symbol(name: &[u8], file: Option<&[u8]>, line: Option<u64>) -> Symbol {
    Symbol {
        name: Some(name.to_vec()),
        file: file.map(|f| f.to_vec()),
        line,
    }
}

fn single_frame(name: &[u8], file: Option<&[u8]>, line: Option<u64>) -> Frame {
    Frame {
        stacks: vec![symbol(name, file, line)],
    }
}

#[test]
fn varint_encodings() {
    let cases: Vec<(u64, Vec<u8>)> = vec![
        (0, vec![0x00]),
        (1, vec![0x01]),
        (127, vec![0x7f]),
        (128, vec![0x80, 0x01]),
        (300, vec![0xac, 0x02]),
        (u64::MAX, vec![0xff, 0xff, 0xff, 0xff, 0xff, 0xff, 0xff, 0xff, 0xff, 0x01]),
    ];
    for (n, expected) in cases {
        let mut out = Vec::new();
        push_varint(&mut out, n);
        assert_eq!(out, expected, "varint of {}", n);
    }
}

#[test]
fn zero_valued_field_is_omitted() {
    let mut out = Vec::new();
    push_uint_field(&mut out, 9, 0);
    assert!(out.is_empty());
    push_uint_field(&mut out, 9, 5);
    assert_eq!(out, vec![0x48, 0x05]);
}

#[test]
fn frame_equality_is_structural() {
    let a = single_frame(b"foo", Some(b"a.rs"), Some(3));
    let b = single_frame(b"foo", Some(b"a.rs"), Some(3));
    let c = single_frame(b"foo", Some(b"a.rs"), Some(4));
    let d = single_frame(b"foo", None, Some(3));
    assert!(frame_eq(&a, &b));
    assert!(!frame_eq(&a, &c));
    assert!(!frame_eq(&a, &d));
}

#[test]
fn record_counts_per_frame() {
    let mut report = Report::new();
    assert_eq!(report.total_count(), 0);
    // alternate two frames, as a machine hopping between two functions would
    for _ in 0..10 {
        report.record(single_frame(b"a", None, None));
        report.record(single_frame(b"b", None, None));
    }
    assert_eq!(report.total_count(), 20);
    assert_eq!(report.len(), 2);
    assert_eq!(report.count_at(0), 10);
    assert_eq!(report.count_at(1), 10);
    assert!(frame_eq(report.frame_at(0), &single_frame(b"a", None, None)));
    assert!(frame_eq(report.frame_at(1), &single_frame(b"b", None, None)));
}

#[test]
fn render_profile_exact_bytes() {
    let mut report = Report::new();
    report.record(single_frame(b"foo", Some(b"bar.rs"), Some(7)));
    report.record(single_frame(b"foo", Some(b"bar.rs"), Some(7)));
    let timing = Timing {
        start_time_nanos: 1,
        duration_nanos: 2,
        period_nanos: 3,
    };
    let data = render_profile(&report, &timing);
    let mut expected: Vec<u8> = Vec::new();
    // sample_type: ValueType { type: 1 ("samples"), unit: 2 ("count") }
    expected.extend_from_slice(&[0x0a, 0x04, 0x08, 0x01, 0x10, 0x02]);
    // sample: location_id [1], value [2]
    expected.extend_from_slice(&[0x12, 0x04, 0x08, 0x01, 0x10, 0x02]);
    // location: id 1, line { function_id 1, line 7 }
    expected.extend_from_slice(&[0x22, 0x08, 0x08, 0x01, 0x22, 0x04, 0x08, 0x01, 0x10, 0x07]);
    // function: id 1, name "foo" (index 3), filename "bar.rs" (index 4)
    expected.extend_from_slice(&[0x2a, 0x06, 0x08, 0x01, 0x10, 0x03, 0x20, 0x04]);
    // string table: "", "samples", "count", "foo", "bar.rs"
    expected.extend_from_slice(&[0x32, 0x00]);
    expected.extend_from_slice(&[0x32, 0x07]);
    expected.extend_from_slice(b"samples");
    expected.extend_from_slice(&[0x32, 0x05]);
    expected.extend_from_slice(b"count");
    expected.extend_from_slice(&[0x32, 0x03]);
    expected.extend_from_slice(b"foo");
    expected.extend_from_slice(&[0x32, 0x06]);
    expected.extend_from_slice(b"bar.rs");
    // time_nanos 1, duration_nanos 2, period 3
    expected.extend_from_slice(&[0x48, 0x01, 0x50, 0x02, 0x60, 0x03]);
    assert_eq!(data, expected);
}

#[test]
fn garbage_image_rejected() {
    let slot = ProfilerSlot::new();
    let r = start_prepare(&slot, b"definitely not an object file", 100);
    assert!(matches!(r, Err(ProfError::ImageParse)));
}

#[test]
fn missing_debug_frame_rejected() {
    let slot = ProfilerSlot::new();
    let image = elf_without_debug_frame();
    let r = start_prepare(&slot, &image, 100);
    assert!(matches!(r, Err(ProfError::MissingDebugInfo)));
    assert!(!is_profiler_started(&slot));
}

#[test]
fn malformed_debug_records_rejected() {
    let slot = ProfilerSlot::new();
    // a parseable container whose .debug_info is garbage
    let image = build_elf(&[(".debug_info", 1, &[0xffu8; 16]), (".debug_frame", 1, &[])]);
    let r = start_prepare(&slot, &image, 100);
    assert!(matches!(r, Err(ProfError::DebugLoad)));
}

#[test]
fn non_positive_frequency_rejected() {
    let slot = ProfilerSlot::new();
    let image = elf_with_debug_frame();
    assert!(matches!(
        start_prepare(&slot, &image, 0),
        Err(ProfError::InvalidArgument)
    ));
    assert!(matches!(
        start_prepare(&slot, &image, -5),
        Err(ProfError::InvalidArgument)
    ));
}

#[test]
fn stop_without_start_rejected() {
    let mut slot = ProfilerSlot::new();
    assert!(matches!(stop_take(&mut slot), Err(ProfError::NotStarted)));
    assert!(!is_profiler_started(&slot));
}

#[test]
fn start_twice_rejected() {
    let mut slot = ProfilerSlot::new();
    let image = elf_with_debug_frame();
    let prepared = start_prepare(&slot, &image, 100).expect("first start");
    start_commit(&mut slot, String::from("/tmp/a.pb"), 0x1234, prepared);
    assert!(is_profiler_started(&slot));
    // second start without stop
    assert!(matches!(
        start_prepare(&slot, &image, 100),
        Err(ProfError::AlreadyStarted)
    ));
    // the first session is intact
    assert!(is_profiler_started(&slot));
    assert_eq!(slot_machine_addr(&slot), Some(0x1234));
}

#[test]
fn tick_on_inactive_slot_changes_nothing() {
    let mut slot = ProfilerSlot::new();
    record_tick(&mut slot, 0x1050);
    assert!(!is_profiler_started(&slot));
    assert!(matches!(stop_take(&mut slot), Err(ProfError::NotStarted)));
}

#[test]
fn unknown_pc_resolves_to_sentinel() {
    let image = elf_with_debug_frame();
    let context = build_debug_context(&image).expect("context");
    let frame = extract_frame(0xDEADBEEF, &context);
    assert_eq!(frame.stacks.len(), 1);
    assert_eq!(frame.stacks[0].name, Some(b"??".to_vec()));
    assert_eq!(frame.stacks[0].file, None);
    assert_eq!(frame.stacks[0].line, None);
    // resolution is a pure function of the context and the pc
    let again = extract_frame(0xDEADBEEF, &context);
    assert!(frame_eq(&frame, &again));
}

#[test]
fn known_pc_resolves_to_function_name() {
    let image = elf_with_foo();
    let context = build_debug_context(&image).expect("context");
    // inside foo's range: the demangled name, no line table, so no file/line
    let frame = extract_frame(0x1050, &context);
    assert_eq!(frame.stacks.len(), 1);
    assert_eq!(frame.stacks[0].name, Some(b"foo".to_vec()));
    // outside any known range: the sentinel
    let outside = extract_frame(0xDEADBEEF, &context);
    assert_eq!(outside.stacks[0].name, Some(b"??".to_vec()));
}

#[test]
fn known_pc_resolves_to_file_and_line() {
    let image = elf_with_foo_and_lines();
    let context = build_debug_context(&image).expect("context");
    let frame = extract_frame(0x1050, &context);
    assert_eq!(frame.stacks[0].name, Some(b"foo".to_vec()));
    let file = frame.stacks[0].file.clone().expect("file");
    assert!(file.ends_with(b"bar.rs"));
    assert_eq!(frame.stacks[0].line, Some(7));
    // outside the line table's range, nothing is attributed
    let outside = extract_frame(0x2000, &context);
    assert_eq!(outside.stacks[0].file, None);
    assert_eq!(outside.stacks[0].line, None);
}

#[test]
fn zero_line_number_treated_as_absent() {
    let image = elf_with_foo_at_line_zero();
    let context = build_debug_context(&image).expect("context");
    let frame = extract_frame(0x1050, &context);
    assert_eq!(frame.stacks[0].name, Some(b"foo".to_vec()));
    assert_eq!(frame.stacks[0].line, None);
}

#[test]
fn session_with_known_function_counts_under_its_name() {
    let mut slot = ProfilerSlot::new();
    let image = elf_with_foo();
    let prepared = start_prepare(&slot, &image, 100).expect("start");
    start_commit(&mut slot, String::from("/tmp/foo.pb"), 0x1, prepared);
    for _ in 0..3 {
        record_tick(&mut slot, 0x1050);
    }
    let out = stop_take(&mut slot).expect("stop");
    // one unique sample, named "foo", with count 3
    let mut prefix: Vec<u8> = Vec::new();
    prefix.extend_from_slice(&[0x0a, 0x04, 0x08, 0x01, 0x10, 0x02]);
    prefix.extend_from_slice(&[0x12, 0x04, 0x08, 0x01, 0x10, 0x03]);
    prefix.extend_from_slice(&[0x22, 0x06, 0x08, 0x01, 0x22, 0x02, 0x08, 0x01]);
    prefix.extend_from_slice(&[0x2a, 0x04, 0x08, 0x01, 0x10, 0x03]);
    prefix.extend_from_slice(&[0x32, 0x00]);
    prefix.extend_from_slice(&[0x32, 0x07]);
    prefix.extend_from_slice(b"samples");
    prefix.extend_from_slice(&[0x32, 0x05]);
    prefix.extend_from_slice(b"count");
    prefix.extend_from_slice(&[0x32, 0x03, 0x66, 0x6f, 0x6f]);
    assert_eq!(&out.data[..prefix.len()], &prefix[..]);
}

#[test]
fn timer_period_from_frequency() {
    let timing = Timer::start(100).timing();
    assert_eq!(timing.period_nanos, 10_000_000);
    let timing = Timer::start(1).timing();
    assert_eq!(timing.period_nanos, 1_000_000_000);
    assert_eq!(period_micros(100), 10_000);
    assert_eq!(period_micros(1), 1_000_000);
}

#[test]
fn full_session_counts_every_tick() {
    let mut slot = ProfilerSlot::new();
    let image = elf_with_debug_frame();
    let prepared = start_prepare(&slot, &image, 100).expect("start");
    start_commit(&mut slot, String::from("/tmp/out.pb"), 0x7777, prepared);
    assert_eq!(slot_machine_addr(&slot), Some(0x7777));
    record_tick(&mut slot, 0xDEADBEEF);
    record_tick(&mut slot, 0xDEADBEEF);
    let out = stop_take(&mut slot).expect("stop");
    assert!(!is_profiler_started(&slot));
    assert_eq!(out.fname, "/tmp/out.pb");
    assert_eq!(out.timing.period_nanos, 10_000_000);
    // after stop, further stops fail and ticks change nothing
    assert!(matches!(stop_take(&mut slot), Err(ProfError::NotStarted)));
    record_tick(&mut slot, 0xDEADBEEF);
    assert!(!is_profiler_started(&slot));

    // the artifact holds exactly one sample, "??", with count 2; the
    // timing tail depends on the clock, so compare the prefix before it
    let mut prefix: Vec<u8> = Vec::new();
    prefix.extend_from_slice(&[0x0a, 0x04, 0x08, 0x01, 0x10, 0x02]);
    prefix.extend_from_slice(&[0x12, 0x04, 0x08, 0x01, 0x10, 0x02]);
    prefix.extend_from_slice(&[0x22, 0x06, 0x08, 0x01, 0x22, 0x02, 0x08, 0x01]);
    prefix.extend_from_slice(&[0x2a, 0x04, 0x08, 0x01, 0x10, 0x03]);
    prefix.extend_from_slice(&[0x32, 0x00]);
    prefix.extend_from_slice(&[0x32, 0x07]);
    prefix.extend_from_slice(b"samples");
    prefix.extend_from_slice(&[0x32, 0x05]);
    prefix.extend_from_slice(b"count");
    prefix.extend_from_slice(&[0x32, 0x02, 0x3f, 0x3f]);
    assert!(out.data.len() > prefix.len());
    assert_eq!(&out.data[..prefix.len()], &prefix[..]);
}
