use unwinder::image::base_addresses::BaseAddresses;
use unwinder::image::symbol_map::OwnedSymbolMap;
use unwinder::image::symbol_map::OwnedSymbolMapName;
use unwinder::image::Endianness;
use unwinder::image::Image;
use unwinder::Frame;
use unwinder::GlobalContext;
use unwinder::UnwindError;

fn make_image(name: &str, start: usize, length: usize, bias: usize) -> Image {
    Image {
        filename: name.to_string(),
        base_addresses: BaseAddresses { text: 0, eh_frame: 0, got: 0, eh_frame_hdr: None },
        bias,
        start_address: start,
        length,
        symbol_map: OwnedSymbolMap::new(Vec::new()),
        dbg_info: Vec::new(),
        line_context: None,
        eh_frame_section: Vec::new(),
        eh_frame_hdr_section: None,
        endian: Endianness::Little,
    }
}

#[test]
fn it_works() {
    GlobalContext::new(Vec::new());
}

#[test]
fn it_resolves() {
    let g = GlobalContext::new(Vec::new());
    let resolved = g.resolve_symbol(it_resolves as usize);
    println!("AVMA: {:?}", resolved.avma);
    println!("SVMA: {:?}", resolved.svma);
    println!("object: {:?}", resolved.object_name);
    for i in resolved.associated_frames {
        match i {
            Frame::Dwarf(frame) => {
                println!("dwarf name: {:?}", frame.name);
                println!("dwarf file: {:?}", frame.file);
                println!("dwarf line: {:?}", frame.line);
                println!("dwarf column: {:?}", frame.column);
            }
            Frame::SymbolMap(symbol) => {
                println!("symbol map name: {}", symbol);
            }
        }
    }
}

#[test]
fn binary_search_three_images() {
    let g = GlobalContext::new(vec![
        make_image("low", 0x1000, 0x500, 0x1000),
        make_image("mid", 0x8000, 0x200, 0x8000),
        make_image("high", 0x10000, 0x100, 0x10000),
    ]);
    let mid = g.find_image(0x8100).expect("0x8100 lies inside the middle image");
    assert_eq!(mid.start_address, 0x8000);
    assert_eq!(mid.filename, "mid");
    assert!(g.find_image(0x8200).is_none());
    assert!(g.find_image(0x0FFF).is_none());
}

#[test]
fn find_image_is_order_independent() {
    // The registry sorts on construction, so handing the images in any
    // order gives the same lookups.
    let g = GlobalContext::new(vec![
        make_image("high", 0x10000, 0x100, 0x10000),
        make_image("low", 0x1000, 0x500, 0x1000),
        make_image("mid", 0x8000, 0x200, 0x8000),
    ]);
    assert_eq!(g.find_image(0x1000).unwrap().filename, "low");
    assert_eq!(g.find_image(0x14FF).unwrap().filename, "low");
    assert_eq!(g.find_image(0x100FF).unwrap().filename, "high");
    assert!(g.find_image(0x1500).is_none());
    assert!(g.find_image(0xFFFF).is_none());
}

#[test]
fn resolve_outside_any_image() {
    let g = GlobalContext::new(vec![make_image("only", 0x1000, 0x500, 0x1000)]);
    let r = g.resolve_symbol(0xDEAD_BEEF);
    assert_eq!(r.avma, 0xDEAD_BEEF);
    assert_eq!(r.object_name, None);
    assert_eq!(r.svma, None);
    assert!(r.associated_frames.is_empty());
}

#[test]
fn resolve_address_zero() {
    let g = GlobalContext::new(vec![make_image("only", 0x1000, 0x500, 0x1000)]);
    let r = g.resolve_symbol(0);
    assert_eq!(r.avma, 0);
    assert_eq!(r.object_name, None);
    assert_eq!(r.svma, None);
    assert!(r.associated_frames.is_empty());
}

#[test]
fn resolve_inside_reports_bias_removed_address() {
    let g = GlobalContext::new(vec![make_image("lib", 0x1000, 0x500, 0x400)]);
    let r = g.resolve_symbol(0x1234);
    assert_eq!(r.object_name.as_deref(), Some("lib"));
    assert_eq!(r.svma, Some(0x1234 - 0x400));
    assert_eq!(r.avma, 0x1234);
    // Re-applying the bias restores the runtime address exactly.
    assert_eq!(r.svma.unwrap() + 0x400, r.avma);
}

#[test]
fn resolve_boundaries() {
    let g = GlobalContext::new(vec![make_image("lib", 0x1000, 0x500, 0x1000)]);
    let inside = g.resolve_symbol(0x1000);
    assert_eq!(inside.object_name.as_deref(), Some("lib"));
    let outside = g.resolve_symbol(0x1500);
    assert_eq!(outside.object_name, None);
    assert_eq!(outside.svma, None);
}

#[test]
fn resolve_twice_yields_equal_results() {
    let mut im = make_image("lib", 0x1000, 0x500, 0x1000);
    im.symbol_map = OwnedSymbolMap::new(vec![OwnedSymbolMapName::new(0x10, "f".to_string())]);
    let g = GlobalContext::new(vec![im]);
    let first = g.resolve_symbol(0x1040);
    let second = g.resolve_symbol(0x1040);
    assert_eq!(first, second);
}

#[test]
fn resolve_falls_back_to_symbol_map() {
    let mut im = make_image("lib", 0x1000, 0x100, 0x1000);
    im.symbol_map = OwnedSymbolMap::new(vec![
        OwnedSymbolMapName::new(0x20, "second".to_string()),
        OwnedSymbolMapName::new(0x00, "first".to_string()),
    ]);
    let g = GlobalContext::new(vec![im]);
    let r = g.resolve_symbol(0x1025);
    assert_eq!(r.svma, Some(0x25));
    assert_eq!(r.associated_frames.len(), 1);
    assert!(matches!(&r.associated_frames[0], Frame::SymbolMap(n) if n == "second"));
    let r2 = g.resolve_symbol(0x1010);
    assert!(matches!(&r2.associated_frames[0], Frame::SymbolMap(n) if n == "first"));
}

#[test]
fn invalid_images_are_dropped() {
    // Zero length, zero start and bias above start are all invalid; the
    // registry drops them rather than corrupt lookups.
    let g = GlobalContext::new(vec![
        make_image("empty", 0x1000, 0, 0x1000),
        make_image("zero", 0, 0x100, 0),
        make_image("bad-bias", 0x1000, 0x100, 0x2000),
    ]);
    assert!(g.find_image(0x1000).is_none());
    assert!(g.find_image(0).is_none());
}

#[test]
fn symbol_map_greatest_at_or_below() {
    let m = OwnedSymbolMap::new(vec![
        OwnedSymbolMapName::new(0x30, "c".to_string()),
        OwnedSymbolMapName::new(0x10, "a".to_string()),
        OwnedSymbolMapName::new(0x20, "b".to_string()),
    ]);
    assert_eq!(m.len(), 3);
    assert!(m.get(0x0F).is_none());
    assert_eq!(m.get(0x10).unwrap().name(), "a");
    assert_eq!(m.get(0x1F).unwrap().name(), "a");
    assert_eq!(m.get(0x20).unwrap().name(), "b");
    assert_eq!(m.get(0xFFFF_FFFF).unwrap().name(), "c");
}

#[test]
fn symbol_map_empty_and_duplicates() {
    let empty = OwnedSymbolMap::new(Vec::new());
    assert!(empty.get(0).is_none());
    let dup = OwnedSymbolMap::new(vec![
        OwnedSymbolMapName::new(0x10, "a".to_string()),
        OwnedSymbolMapName::new(0x10, "b".to_string()),
    ]);
    // Entries with equal addresses keep their relative order; the lookup
    // returns the last one at or below the address.
    assert_eq!(dup.get(0x10).unwrap().name(), "b");
}

#[test]
fn symbol_map_accessors() {
    let e = OwnedSymbolMapName::new(0x40, "main".to_string());
    assert_eq!(e.address(), 0x40);
    assert_eq!(e.name(), "main");
}

#[test]
fn describe_formats_errors() {
    assert_eq!(
        UnwindError::UnknownProgramCounter(0xdead).describe(),
        "unknown program counter: 0xdead"
    );
    assert_eq!(UnwindError::UnknownProgramCounter(0).describe(), "unknown program counter: 0x0");
    assert_eq!(UnwindError::ErrnoError(13).describe(), "errno: 13");
    assert_eq!(UnwindError::ErrnoError(-2).describe(), "errno: -2");
    assert_eq!(UnwindError::UnwindEnded.describe(), "cursor cannot step any further");
    assert_eq!(
        UnwindError::NotSupported("CFA expression is not supported".to_string()).describe(),
        "CFA expression is not supported"
    );
}

#[test]
fn hex_and_dec_strings() {
    assert_eq!(unwinder::hex_string(0), "0");
    assert_eq!(unwinder::hex_string(0xff), "ff");
    assert_eq!(unwinder::hex_string(0x1a2b3c), "1a2b3c");
    assert_eq!(unwinder::dec_string(0), "0");
    assert_eq!(unwinder::dec_string(90210), "90210");
}
