//! End-to-end checks against a real object file assembled in memory: the
//! loading pipeline parses it, the registry serves lookups from it, and the
//! cursor steps by call-frame information written into its unwind section.

use unwinder::cursor::setup_unwind_info;
use unwinder::cursor::state::CfaRule;
use unwinder::cursor::state::RegisterRule;
use unwinder::cursor::x86_64::FramePointerBasedState;
use unwinder::cursor::x86_64::RegisterRecovery;
use unwinder::cursor::x86_64::RETURN_ADDRESS_IDX;
use unwinder::cursor::x86_64::STACK_POINTER_IDX;
use unwinder::image::base_addresses;
use unwinder::image::build_image;
use unwinder::image::load_all;
use unwinder::image::symbol_map;
use unwinder::image::ImageInput;
use unwinder::Frame;
use unwinder::GlobalContext;
use unwinder::UnwindError;

/// The unwind section of one function at SVMA range `[0x0, 0x100)`: the CFA
/// is RSP + 16, and the return address lies at CFA - 8.
fn eh_frame_bytes() -> Vec<u8> {
    let encoding =
        gimli::Encoding { format: gimli::Format::Dwarf32, version: 1, address_size: 8 };
    let cie = gimli::write::CommonInformationEntry::new(
        encoding,
        1,
        -8,
        gimli::Register(RETURN_ADDRESS_IDX),
    );
    let mut table = gimli::write::FrameTable::default();
    let cie_id = table.add_cie(cie);
    let mut fde =
        gimli::write::FrameDescriptionEntry::new(gimli::write::Address::Constant(0), 0x100);
    fde.add_instruction(
        0,
        gimli::write::CallFrameInstruction::Cfa(gimli::Register(STACK_POINTER_IDX), 16),
    );
    fde.add_instruction(
        0,
        gimli::write::CallFrameInstruction::Offset(gimli::Register(RETURN_ADDRESS_IDX), -8),
    );
    table.add_fde(cie_id, fde);
    let mut eh = gimli::write::EhFrame(gimli::write::EndianVec::new(gimli::LittleEndian));
    table.write_eh_frame(&mut eh).expect("the frame table serializes");
    eh.0.into_vec()
}

/// A little-endian ELF object with text, unwind and GOT sections and two
/// static symbols, assembled in memory.
fn elf_bytes() -> Vec<u8> {
    let mut obj = object::write::Object::new(
        object::BinaryFormat::Elf,
        object::Architecture::X86_64,
        object::Endianness::Little,
    );
    let text = obj.add_section(Vec::new(), b".text".to_vec(), object::SectionKind::Text);
    obj.set_section_data(text, vec![0x90u8; 0x100], 16);
    let eh = obj.add_section(Vec::new(), b".eh_frame".to_vec(), object::SectionKind::ReadOnlyData);
    obj.set_section_data(eh, eh_frame_bytes(), 8);
    let got = obj.add_section(Vec::new(), b".got".to_vec(), object::SectionKind::Data);
    obj.set_section_data(got, vec![0u8; 8], 8);
    obj.add_symbol(object::write::Symbol {
        name: b"leaf".to_vec(),
        value: 0x40,
        size: 0x20,
        kind: object::SymbolKind::Text,
        scope: object::SymbolScope::Linkage,
        weak: false,
        section: object::write::SymbolSection::Section(text),
        flags: object::SymbolFlags::None,
    });
    obj.add_symbol(object::write::Symbol {
        name: b"outer".to_vec(),
        value: 0x80,
        size: 0x20,
        kind: object::SymbolKind::Text,
        scope: object::SymbolScope::Linkage,
        weak: false,
        section: object::write::SymbolSection::Section(text),
        flags: object::SymbolFlags::None,
    });
    obj.write().expect("the object serializes")
}

fn input() -> ImageInput {
    ImageInput {
        filename: "synthetic.so".to_string(),
        start_address: 0x1000,
        length: 0x100,
        bias: 0x1000,
        data: elf_bytes(),
        debug_data: None,
    }
}

/// The same object extended with DWARF: one compile unit covering SVMA
/// `[0, 0x100)` and one subprogram `leaf_fn` at `[0x40, 0x60)`.
fn debug_elf_bytes() -> Vec<u8> {
    let encoding =
        gimli::Encoding { format: gimli::Format::Dwarf32, version: 4, address_size: 8 };
    let mut dwarf = gimli::write::DwarfUnit::new(encoding);
    let root = dwarf.unit.root();
    {
        let cu = dwarf.unit.get_mut(root);
        cu.set(
            gimli::DW_AT_low_pc,
            gimli::write::AttributeValue::Address(gimli::write::Address::Constant(0)),
        );
        cu.set(gimli::DW_AT_high_pc, gimli::write::AttributeValue::Udata(0x100));
    }
    let sub = dwarf.unit.add(root, gimli::DW_TAG_subprogram);
    {
        let die = dwarf.unit.get_mut(sub);
        die.set(gimli::DW_AT_name, gimli::write::AttributeValue::String(b"leaf_fn".to_vec()));
        die.set(
            gimli::DW_AT_low_pc,
            gimli::write::AttributeValue::Address(gimli::write::Address::Constant(0x40)),
        );
        die.set(gimli::DW_AT_high_pc, gimli::write::AttributeValue::Udata(0x20));
    }
    let mut sections =
        gimli::write::Sections::new(gimli::write::EndianVec::new(gimli::LittleEndian));
    dwarf.write(&mut sections).expect("the DWARF serializes");
    let mut obj = object::write::Object::new(
        object::BinaryFormat::Elf,
        object::Architecture::X86_64,
        object::Endianness::Little,
    );
    let text = obj.add_section(Vec::new(), b".text".to_vec(), object::SectionKind::Text);
    obj.set_section_data(text, vec![0x90u8; 0x100], 16);
    let eh = obj.add_section(Vec::new(), b".eh_frame".to_vec(), object::SectionKind::ReadOnlyData);
    obj.set_section_data(eh, eh_frame_bytes(), 8);
    let got = obj.add_section(Vec::new(), b".got".to_vec(), object::SectionKind::Data);
    obj.set_section_data(got, vec![0u8; 8], 8);
    obj.add_symbol(object::write::Symbol {
        name: b"outer".to_vec(),
        value: 0x80,
        size: 0x20,
        kind: object::SymbolKind::Text,
        scope: object::SymbolScope::Linkage,
        weak: false,
        section: object::write::SymbolSection::Section(text),
        flags: object::SymbolFlags::None,
    });
    sections
        .for_each(|id, data| {
            if !data.slice().is_empty() {
                let sec = obj.add_section(
                    Vec::new(),
                    id.name().as_bytes().to_vec(),
                    object::SectionKind::Debug,
                );
                obj.set_section_data(sec, data.slice().to_vec(), 1);
            }
            Ok::<(), gimli::Error>(())
        })
        .expect("the sections are collected");
    obj.write().expect("the object serializes")
}

#[test]
fn resolve_uses_dwarf_line_info() {
    let mut with_debug = input();
    with_debug.data = debug_elf_bytes();
    let g = GlobalContext::new(load_all(vec![with_debug]));
    let r = g.resolve_symbol(0x1045);
    assert_eq!(r.svma, Some(0x45));
    assert_eq!(r.associated_frames.len(), 1);
    match &r.associated_frames[0] {
        Frame::Dwarf(d) => assert_eq!(d.name.as_deref(), Some("leaf_fn")),
        other => panic!("expected a DWARF frame, got {:?}", other),
    }
    // An address inside the image but outside every subprogram still falls
    // back to the symbol map.
    let r2 = g.resolve_symbol(0x1090);
    assert_eq!(r2.associated_frames.len(), 1);
    assert!(matches!(&r2.associated_frames[0], Frame::SymbolMap(n) if n == "outer"));
}

#[test]
fn base_addresses_from_object() {
    let data = elf_bytes();
    let ba = base_addresses::load(&data).expect("the three required sections are present");
    // A relocatable object places every section at address zero.
    assert_eq!(ba.text, 0);
    assert_eq!(ba.eh_frame, 0);
    assert_eq!(ba.got, 0);
    assert_eq!(ba.eh_frame_hdr, None);
}

#[test]
fn base_addresses_missing_section() {
    let mut obj = object::write::Object::new(
        object::BinaryFormat::Elf,
        object::Architecture::X86_64,
        object::Endianness::Little,
    );
    let text = obj.add_section(Vec::new(), b".text".to_vec(), object::SectionKind::Text);
    obj.set_section_data(text, vec![0x90u8; 4], 16);
    let data = obj.write().expect("the object serializes");
    assert!(base_addresses::load(&data).is_none());
    assert!(base_addresses::load(&[0u8; 16]).is_none());
}

#[test]
fn symbol_map_from_object() {
    let data = elf_bytes();
    let m = symbol_map::load(&data);
    assert_eq!(m.get(0x45).expect("0x45 lies inside leaf").name(), "leaf");
    assert_eq!(m.get(0x90).expect("0x90 lies inside outer").name(), "outer");
    assert!(m.get(0x3F).is_none());
}

#[test]
fn build_image_from_object() {
    let im = build_image(input()).expect("the synthetic object yields an image");
    assert_eq!(im.filename, "synthetic.so");
    assert_eq!(im.start_address, 0x1000);
    assert_eq!(im.length, 0x100);
    assert_eq!(im.bias, 0x1000);
    assert!(im.line_context.is_none());
    assert!(!im.eh_frame_section.is_empty());
    assert!(im.eh_frame_hdr_section.is_none());
}

#[test]
fn build_image_rejects_garbage() {
    let mut bad = input();
    bad.data = vec![0u8; 64];
    assert!(build_image(bad).is_none());
}

#[test]
fn load_all_skips_what_cannot_build() {
    let mut bad = input();
    bad.data = vec![1u8; 32];
    let images = load_all(vec![bad, input()]);
    assert_eq!(images.len(), 1);
    assert_eq!(images[0].filename, "synthetic.so");
}

#[test]
fn resolve_through_built_image() {
    let g = GlobalContext::new(load_all(vec![input()]));
    let r = g.resolve_symbol(0x1045);
    assert_eq!(r.object_name.as_deref(), Some("synthetic.so"));
    assert_eq!(r.svma, Some(0x45));
    assert_eq!(r.associated_frames.len(), 1);
    assert!(matches!(&r.associated_frames[0], Frame::SymbolMap(n) if n == "leaf"));
}

#[test]
fn unwind_row_from_written_cfi() {
    let g = GlobalContext::new(load_all(vec![input()]));
    let row = setup_unwind_info(&g, 0x1045).expect("the FDE covers the probe address");
    assert_eq!(
        row.cfa,
        CfaRule::RegisterAndOffset { register: STACK_POINTER_IDX, offset: 16 }
    );
    assert_eq!(row.register(RETURN_ADDRESS_IDX), RegisterRule::Offset(-8));
}

#[test]
fn step_plan_from_written_cfi() {
    let g = GlobalContext::new(load_all(vec![input()]));
    let row = setup_unwind_info(&g, 0x1045).expect("the FDE covers the probe address");
    let s = FramePointerBasedState::new(0x1045, 0x7fff_0000);
    let plan = s.plan_step(&row).expect("the row's rules fit the simplified state");
    assert_eq!(plan.new_rsp, 0x7fff_0010);
    assert_eq!(plan.rip, RegisterRecovery::ReadMemory(0x7fff_0008));
}

#[test]
fn build_id_from_note_section() {
    assert!(unwinder::image::raw_image::build_id(&elf_bytes()).is_none());
    let mut obj = object::write::Object::new(
        object::BinaryFormat::Elf,
        object::Architecture::X86_64,
        object::Endianness::Little,
    );
    // One GNU build-id note: name "GNU", type 3, eight bytes of id.
    let mut note: Vec<u8> = Vec::new();
    note.extend_from_slice(&4u32.to_le_bytes());
    note.extend_from_slice(&8u32.to_le_bytes());
    note.extend_from_slice(&3u32.to_le_bytes());
    note.extend_from_slice(b"GNU\0");
    note.extend_from_slice(&[1, 2, 3, 4, 5, 6, 7, 8]);
    let sec = obj.add_section(Vec::new(), b".note.gnu.build-id".to_vec(), object::SectionKind::Note);
    obj.set_section_data(sec, note, 4);
    let data = obj.write().expect("the object serializes");
    let id = unwinder::image::raw_image::build_id(&data).expect("the note carries a build id");
    assert_eq!(id, vec![1, 2, 3, 4, 5, 6, 7, 8]);
}

#[test]
fn unknown_counter_ends_walk() {
    let g = GlobalContext::new(load_all(vec![input()]));
    let e = setup_unwind_info(&g, 0x9999_9999).unwrap_err();
    assert!(matches!(e, UnwindError::UnknownProgramCounter(0x9999_9999)));
}
