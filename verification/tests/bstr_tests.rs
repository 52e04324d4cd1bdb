//! Tests of the string-handle primitives and the owning string wrapper.

#![allow(non_snake_case)]

use rusty_winapi::auto_bstr::AutoBSTR;
use rusty_winapi::bstr::BstrHeap;
use rusty_winapi::bstr::SysAllocError;
use rusty_winapi::bstr::SysAllocString;
use rusty_winapi::bstr::SysAllocStringLen;
use rusty_winapi::bstr::SysFreeString;
use rusty_winapi::bstr::SysReAllocString;
use rusty_winapi::bstr::SysReAllocStringLen;
use rusty_winapi::bstr::SysStringLen;
use rusty_winapi::bstr::Utf16Src;
use rusty_winapi::bstr::bstr_src_intersection;
use rusty_winapi::utf16::string_to_utf16;
use rusty_winapi::utf16::utf16_to_string_lossy;

fn test_line() -> &'static str {
    "Test line.\u{0000} Тестовая строка.\u{0000} Testlinie.\u{0000} Ligne de test.\u{0000} Línea de prueba."
}

fn bstr2string(heap: &BstrHeap, bstr: usize) -> String {
    utf16_to_string_lossy(&heap.units_of(bstr))
}

#[test]
fn test_SysAllocString() {
    let mut heap = BstrHeap::new(1 << 20);

    // If successful, returns the string up to the first terminator.
    let test_line_utf16: Vec<u16> = test_line().encode_utf16().collect();
    let bstr = SysAllocString(&mut heap, &Utf16Src::of_units(test_line_utf16)).unwrap();
    let original_sub_string = test_line().split("\u{0000}").take(1).next().unwrap();
    assert_eq!(original_sub_string, bstr2string(&heap, bstr));
    SysFreeString(&mut heap, bstr);

    // If source is a zero-length string, returns a zero-length handle.
    let zero_length = vec![0u16; 1];
    let bstr = SysAllocString(&mut heap, &Utf16Src::of_units(zero_length)).unwrap();
    assert_eq!("", bstr2string(&heap, bstr));
    SysFreeString(&mut heap, bstr);

    // If source is not null-terminated, returns NullTerminatedStringRequiredError.
    let test_line_utf16: Vec<u16> = "Test line.".encode_utf16().collect();
    assert_eq!(
        Err(SysAllocError::NullTerminatedStringRequiredError),
        SysAllocString(&mut heap, &Utf16Src::of_units(test_line_utf16))
    );
}

#[test]
fn test_SysReAllocString() {
    let mut heap = BstrHeap::new(1 << 20);
    // sources live far above every heap extent
    let far = |units: Vec<u16>| Utf16Src { base: 1 << 30, units };

    // If successful, returns the string.
    let test_line_utf16: Vec<u16> = test_line().encode_utf16().collect();
    let bstr = SysAllocString(&mut heap, &Utf16Src::of_units(test_line_utf16)).unwrap();
    let new_test_line = "New line.\u{0000}";
    let test_line_utf16: Vec<u16> = new_test_line.encode_utf16().collect();
    let bstr = SysReAllocString(&mut heap, bstr, &far(test_line_utf16)).unwrap();
    assert_eq!(new_test_line[..new_test_line.len() - 1], bstr2string(&heap, bstr));
    SysFreeString(&mut heap, bstr);

    // If source is a zero-length string, returns a zero-length handle.
    let test_line_utf16: Vec<u16> = test_line().encode_utf16().collect();
    let bstr = SysAllocString(&mut heap, &Utf16Src::of_units(test_line_utf16)).unwrap();
    let test_line_utf16 = vec![0u16, 1];
    let bstr = SysReAllocString(&mut heap, bstr, &far(test_line_utf16)).unwrap();
    assert_eq!("", bstr2string(&heap, bstr));
    SysFreeString(&mut heap, bstr);

    // If the handle is null, returns InvalidPointerError.
    let bstr = 0usize;
    let test_line_utf16 = vec![0u16, 1];
    assert_eq!(
        Err(SysAllocError::InvalidPointerError),
        SysReAllocString(&mut heap, bstr, &far(test_line_utf16))
    );

    // If source is not null-terminated, returns NullTerminatedStringRequiredError.
    let test_line_utf16: Vec<u16> = test_line().encode_utf16().collect();
    let bstr = SysAllocString(&mut heap, &Utf16Src::of_units(test_line_utf16)).unwrap();
    let test_line_utf16: Vec<u16> = "New line.".encode_utf16().collect();
    assert_eq!(
        Err(SysAllocError::NullTerminatedStringRequiredError),
        SysReAllocString(&mut heap, bstr, &far(test_line_utf16))
    );
    SysFreeString(&mut heap, bstr);
}

#[test]
fn test_SysAllocStringLen() {
    let mut heap = BstrHeap::new(1 << 20);

    // If successful, returns the whole string, embedded terminators included.
    let test_line_utf16: Vec<u16> = test_line().encode_utf16().collect();
    let bstr = SysAllocStringLen(&mut heap, &Utf16Src::of_units(test_line_utf16)).unwrap();
    assert_eq!(test_line(), bstr2string(&heap, bstr));
    SysFreeString(&mut heap, bstr);

    // If source is a zero-length string, returns a zero-length handle.
    let zero_length: Vec<u16> = vec![];
    let bstr = SysAllocStringLen(&mut heap, &Utf16Src::of_units(zero_length)).unwrap();
    assert_eq!("", bstr2string(&heap, bstr));
    SysFreeString(&mut heap, bstr);

    // A length-prefixed copy keeps the exact code units of the source.
    let units = string_to_utf16(test_line());
    let bstr = SysAllocStringLen(&mut heap, &Utf16Src::of_units(units.clone())).unwrap();
    assert_eq!(units, heap.units_of(bstr));
    SysFreeString(&mut heap, bstr);
}

#[test]
fn test_SysReAllocStringLen() {
    let mut heap = BstrHeap::new(1 << 20);
    // sources live far above every heap extent
    let far = |units: Vec<u16>| Utf16Src { base: 1 << 30, units };

    // If successful, returns the string.
    let test_line_utf16: Vec<u16> = test_line().encode_utf16().collect();
    let bstr = SysAllocStringLen(&mut heap, &Utf16Src::of_units(test_line_utf16)).unwrap();
    let new_test_line = "Test line.\u{0000} Тестовая строка.\u{0000} Testlinie.\u{0000} Ligne de test.\u{0000} Línea de prueba.\u{0000} 测试线";
    let test_line_utf16: Vec<u16> = new_test_line.encode_utf16().collect();
    let bstr = SysReAllocStringLen(&mut heap, bstr, &far(test_line_utf16)).unwrap();
    assert_eq!(new_test_line, bstr2string(&heap, bstr));
    SysFreeString(&mut heap, bstr);

    // If source is a zero-length string, returns a zero-length handle.
    let test_line_utf16: Vec<u16> = test_line().encode_utf16().collect();
    let bstr = SysAllocStringLen(&mut heap, &Utf16Src::of_units(test_line_utf16)).unwrap();
    let test_line_utf16: Vec<u16> = vec![];
    let bstr = SysReAllocStringLen(&mut heap, bstr, &far(test_line_utf16)).unwrap();
    assert_eq!("", bstr2string(&heap, bstr));
    assert_eq!(0, SysStringLen(&heap, bstr));
    SysFreeString(&mut heap, bstr);

    // If the handle is null, returns InvalidPointerError.
    let bstr = 0usize;
    let test_line_utf16: Vec<u16> = vec![];
    assert_eq!(
        Err(SysAllocError::InvalidPointerError),
        SysReAllocStringLen(&mut heap, bstr, &Utf16Src::of_units(test_line_utf16))
    );
}

#[test]
fn test_SysStringLen() {
    let mut heap = BstrHeap::new(1 << 20);

    let test_line_utf16: Vec<u16> = test_line().encode_utf16().collect();
    let expected = test_line_utf16.len() as u32;
    let bstr = SysAllocStringLen(&mut heap, &Utf16Src::of_units(test_line_utf16)).unwrap();
    assert_eq!(expected, SysStringLen(&heap, bstr));
    SysFreeString(&mut heap, bstr);

    let bstr = 0usize;
    assert_eq!(0, SysStringLen(&heap, bstr));
}

#[test]
fn test_bstr_src_intersection() {
    let mut heap = BstrHeap::new(1 << 20);
    // padding allocation, so that addresses before the tested buffer exist
    SysAllocStringLen(&mut heap, &Utf16Src::of_units(vec![0u16; 16])).unwrap();
    let test_line_utf16: Vec<u16> = test_line().encode_utf16().collect();
    let n = test_line_utf16.len();
    let bstr = SysAllocStringLen(&mut heap, &Utf16Src::of_units(test_line_utf16)).unwrap();

    // src before bstr, not touching the length prefix
    let src = Utf16Src { base: bstr - 8, units: vec![0u16; 2] };
    assert!(!bstr_src_intersection(&heap, bstr, &src));

    // src before bstr with intersection
    let src = Utf16Src { base: bstr - 8, units: vec![0u16; 6] };
    assert!(bstr_src_intersection(&heap, bstr, &src));

    // src covering bstr together with the length prefix and the terminator
    let src = Utf16Src { base: bstr - 4, units: vec![0u16; 2 + n + 1] };
    assert!(bstr_src_intersection(&heap, bstr, &src));

    // src inside bstr
    let src = Utf16Src { base: bstr + 4, units: vec![0u16; 2] };
    assert!(bstr_src_intersection(&heap, bstr, &src));

    // src after bstr with intersection
    let src = Utf16Src { base: bstr + 2 * (n - 1), units: vec![0u16; 4] };
    assert!(bstr_src_intersection(&heap, bstr, &src));

    // src after bstr, past the terminator
    let src = Utf16Src { base: bstr + 2 * (n + 1), units: vec![0u16; 2] };
    assert!(!bstr_src_intersection(&heap, bstr, &src));
}

#[test]
fn test_AutoBSTR() {
    let mut heap = BstrHeap::new(1 << 20);

    let auto_bstr = AutoBSTR::try_from_str(&mut heap, test_line()).unwrap();
    assert_eq!(test_line(), auto_bstr.into_string(&mut heap));

    let test_line_string = String::from(test_line());
    let auto_bstr = AutoBSTR::try_from_string(&mut heap, &test_line_string).unwrap();
    assert_eq!(test_line(), auto_bstr.into_string(&mut heap));

    // Extracting the raw handle disowns it; re-wrapping adopts it again.
    let auto_bstr = AutoBSTR::try_from_str(&mut heap, test_line()).unwrap();
    let raw = auto_bstr.into_handle();
    let adopted = AutoBSTR::from_handle(raw);
    assert_eq!(raw, adopted.handle);
    adopted.free(&mut heap);
    assert!(!heap.handle_is_live(raw));
}

#[test]
fn test_realloc_empty_source_yields_zero_length() {
    let mut heap = BstrHeap::new(1 << 12);
    let units: Vec<u16> = "abc".encode_utf16().collect();
    let h = SysAllocStringLen(&mut heap, &Utf16Src::of_units(units)).unwrap();
    let h2 = SysReAllocStringLen(&mut heap, h, &Utf16Src { base: 1 << 30, units: vec![] }).unwrap();
    assert_eq!(0, SysStringLen(&heap, h2));
    assert!(!heap.handle_is_live(h));
    assert!(heap.handle_is_live(h2));
}

#[test]
fn test_realloc_overlap_every_position() {
    let mut heap = BstrHeap::new(1 << 16);
    // padding allocation, so that addresses before the tested buffer exist
    SysAllocStringLen(&mut heap, &Utf16Src::of_units(vec![0u16; 16])).unwrap();
    let units: Vec<u16> = "0123456789".encode_utf16().collect();
    let n = units.len();

    // Touching or overlapping sources fail with the invalid-pointer error and
    // leave the handle alone.
    let h = SysAllocStringLen(&mut heap, &Utf16Src::of_units(units.clone())).unwrap();
    for src in [
        Utf16Src { base: h - 8, units: vec![7u16; 6] },  // before, reaching in
        Utf16Src { base: h - 4, units: vec![7u16; 2] },  // starting at the prefix
        Utf16Src { base: h + 4, units: vec![7u16; 2] },  // inside
        Utf16Src { base: h - 4, units: vec![7u16; 2 + n + 1] },  // covering
        Utf16Src { base: h + 2 * (n - 1), units: vec![7u16; 4] },  // after, reaching in
        Utf16Src { base: h + 2 * n, units: vec![7u16; 2] },  // starting on the terminator
    ] {
        assert_eq!(
            Err(SysAllocError::InvalidPointerError),
            SysReAllocStringLen(&mut heap, h, &src)
        );
        assert!(heap.handle_is_live(h));
    }

    // A source fully before the prefix, not touching, succeeds.
    let src = Utf16Src { base: h - 10, units: vec![7u16; 3] };
    let h2 = SysReAllocStringLen(&mut heap, h, &src).unwrap();
    assert_eq!(vec![7u16; 3], heap.units_of(h2));

    // A source fully after the terminator, not touching, succeeds.
    let h3 = SysAllocStringLen(&mut heap, &Utf16Src::of_units(vec![1u16, 2])).unwrap();
    let src = Utf16Src { base: h3 + 2 * 2 + 2, units: vec![9u16; 2] };
    let h4 = SysReAllocStringLen(&mut heap, h3, &src).unwrap();
    assert_eq!(vec![9u16; 2], heap.units_of(h4));
}

#[test]
fn test_allocator_exhaustion() {
    // Ten bytes of capacity: one two-unit buffer (4 + 4 + 2 bytes) fits and
    // nothing more.
    let mut heap = BstrHeap::new(10);
    let h = SysAllocStringLen(&mut heap, &Utf16Src::of_units(vec![65u16, 66])).unwrap();
    assert_eq!(2, SysStringLen(&heap, h));
    assert_eq!(
        Err(SysAllocError::BStrAllocationError),
        SysAllocStringLen(&mut heap, &Utf16Src::of_units(vec![67u16]))
    );
    // Freeing does not reclaim bump space: the model's allocator is exhausted
    // for good.
    SysFreeString(&mut heap, h);
    assert_eq!(
        Err(SysAllocError::BStrAllocationError),
        SysAllocStringLen(&mut heap, &Utf16Src::of_units(vec![67u16]))
    );
}

#[test]
fn test_alloc_hello_embedded_terminator() {
    let mut heap = BstrHeap::new(1 << 12);
    let units: Vec<u16> = "Hello\u{0000}".encode_utf16().collect();
    let h = SysAllocString(&mut heap, &Utf16Src::of_units(units)).unwrap();
    assert_eq!(5, SysStringLen(&heap, h));
    assert_eq!("Hello", bstr2string(&heap, h));
    SysFreeString(&mut heap, h);
}

#[test]
fn test_alloc_len_round_trips_embedded_terminators() {
    let mut heap = BstrHeap::new(1 << 12);
    let units: Vec<u16> = "ab\u{0000}cd".encode_utf16().collect();
    // The terminated variant keeps only the prefix...
    let h = SysAllocString(&mut heap, &Utf16Src::of_units(units.clone())).unwrap();
    assert_eq!(2, SysStringLen(&heap, h));
    // ...while the length variant keeps everything.
    let h2 = SysAllocStringLen(&mut heap, &Utf16Src::of_units(units.clone())).unwrap();
    assert_eq!(units.len() as u32, SysStringLen(&heap, h2));
    assert_eq!(units, heap.units_of(h2));
    assert_eq!("ab\u{0000}cd", bstr2string(&heap, h2));
}

#[test]
fn test_utf16_codec() {
    // One basic-plane and one supplementary-plane character.
    let units = string_to_utf16("A𝄞");
    assert_eq!(vec![0x41u16, 0xD834, 0xDD1E], units);
    assert_eq!("A𝄞", utf16_to_string_lossy(&units));

    // Unpaired surrogates decode to the replacement character.
    assert_eq!("\u{FFFD}", utf16_to_string_lossy(&vec![0xD800u16]));
    assert_eq!("\u{FFFD}A", utf16_to_string_lossy(&vec![0xDC00u16, 0x41]));
    assert_eq!("\u{FFFD}\u{FFFD}", utf16_to_string_lossy(&vec![0xDC00u16, 0xD800]));
}
