use sleuth::ue::{
    FAssetData, FName, FNameEntryId, SyncPtr, TScriptInterface,
    FChunkedFixedUObjectArray, FUObjectArray, FUObjectItem, FWeakObjectPtr, TArray,
};

fn item(object: usize) -> FUObjectItem {
    FUObjectItem { object, flags: 0, cluster_root_index: 0, serial_number: 0 }
}

fn table() -> FChunkedFixedUObjectArray {
    // two chunks of two slots, three in use
    let chunks = vec![vec![item(0x10), item(0)], vec![item(0x30), item(0x40)]];
    FChunkedFixedUObjectArray::from_chunks(chunks, 4, 2, 3).unwrap()
}

#[test]
fn tarray_grows_to_powers_of_two() {
    let mut a: TArray<u32> = TArray::new();
    assert!(a.is_empty());
    assert_eq!(a.capacity(), 0);
    a.push(1);
    assert_eq!(a.capacity(), 1);
    a.push(2);
    assert_eq!(a.capacity(), 2);
    a.push(3);
    assert_eq!(a.capacity(), 4);
    a.push(4);
    assert_eq!(a.capacity(), 4);
    a.push(5);
    assert_eq!(a.capacity(), 8);
    assert_eq!(a.len(), 5);
    assert_eq!(a.as_slice(), &[1, 2, 3, 4, 5]);
    a.clear();
    assert!(a.is_empty());
    assert_eq!(a.capacity(), 8);

    let mut b: TArray<u8> = TArray::with_capacity(3);
    b.push(7);
    b.push(8);
    b.push(9);
    assert_eq!(b.capacity(), 3);
    b.push(10);
    assert_eq!(b.capacity(), 4);
}

#[test]
fn tarray_clone_and_from_slice() {
    let a = TArray::from_slice(&[1u16, 2, 3]);
    assert_eq!(a.capacity(), 3);
    let c = a.clone();
    assert_eq!(c.as_slice(), &[1, 2, 3]);
    assert_eq!(c.capacity(), 3);
    let e: TArray<u16> = TArray::new();
    assert_eq!(e.clone().capacity(), 0);
}

#[test]
fn fstring_text_drops_trailing_nuls() {
    let s = TArray::from_slice(&[72u16, 105, 0, 0]);
    assert_eq!(s.text_units(), vec![72, 105]);
    let t = TArray::from_slice(&[0u16, 65]);
    assert_eq!(t.text_units(), vec![0, 65]);
    let z = TArray::from_slice(&[0u16, 0]);
    assert!(z.text_units().is_empty());
}

#[test]
fn chunked_table_indexing_and_iteration() {
    let t = table();
    assert_eq!(t.item(0).object, 0x10);
    assert_eq!(t.item(2).object, 0x30);
    let mut it = t.iter();
    assert_eq!(it.size_hint(), (3, Some(3)));
    assert_eq!(it.next(), Some(Some(0x10)));
    assert_eq!(it.next(), Some(None));
    assert_eq!(it.next(), Some(Some(0x30)));
    assert_eq!(it.next(), None);
    let mut it2 = t.iter();
    assert_eq!(it2.nth(2), Some(Some(0x30)));
    assert_eq!(it2.nth(0), None);
}

#[test]
fn chunked_table_rejects_bad_layouts() {
    assert!(FChunkedFixedUObjectArray::from_chunks(vec![vec![item(1)]], 4, 2, 1).is_none());
    assert!(FChunkedFixedUObjectArray::from_chunks(vec![vec![item(1), item(2)]], 4, 2, 3).is_none());
    assert!(FChunkedFixedUObjectArray::from_chunks(vec![], 4, 0, 0).is_none());
    assert!(FChunkedFixedUObjectArray::from_chunks(vec![], 1, 2, 0).is_none());
}

#[test]
fn serial_numbers_are_handed_out_once() {
    let mut objects = FUObjectArray::new(table(), 100);
    let a = objects.allocate_serial_number(2);
    assert_eq!(a, 100);
    assert_eq!(objects.allocate_serial_number(2), 100);
    assert_eq!(objects.allocate_serial_number(0), 101);
    assert_eq!(objects.objects().item(2).serial_number, 100);
    let w = FWeakObjectPtr::new_from_index(2, &mut objects);
    let w2 = FWeakObjectPtr::new_from_index(2, &mut objects);
    assert_eq!(w, w2);
    assert_eq!(w.get(&objects), Some(0x30));
    let w1 = FWeakObjectPtr::new_from_index(1, &mut objects);
    assert_ne!(w1, w);
}

#[test]
fn fstring_decodes_utf16_text() {
    let mut units: Vec<u16> = "h\u{e9}llo \u{1F600}".encode_utf16().collect();
    units.push(0);
    units.push(0);
    let s: TArray<u16> = TArray::from_slice(&units);
    assert_eq!(s.to_string(), "h\u{e9}llo \u{1F600}");
    assert_eq!(s.to_text(), Some("h\u{e9}llo \u{1F600}".to_string()));
}

#[test]
fn fstring_text_rejects_unpaired_surrogate() {
    let s: TArray<u16> = TArray::from_slice(&[0x61, 0xD800, 0x62, 0]);
    assert_eq!(s.to_text(), None);
    let empty: TArray<u16> = TArray::from_slice(&[0, 0]);
    assert_eq!(empty.to_string(), "");
}

#[test]
fn asset_data_description_lists_names() {
    let n = |v: u32| FName { comparison_index: FNameEntryId { value: v }, number: 0 };
    let a = FAssetData {
        ObjectPath: n(1),
        PackageName: n(2),
        PackagePath: n(3),
        AssetName: n(4),
        AssetClass: n(5),
        TagsAndValues: [0; 16],
        ChunkIDs: [0; 16],
        PackageFlags: 0,
        padding: [0; 4],
    };
    let text = a.describe(|f: FName| format!("N{}", f.comparison_index.value));
    assert_eq!(text, "ObjectPath N1\n PackageName: N2\n PackagePath: N3\n AssetName: N4\n AssetClass: N5");
}

#[test]
fn engine_handles_start_null() {
    let i = TScriptInterface::new();
    assert_eq!((i.object, i.interface), (0, 0));
    let p: SyncPtr<u8> = SyncPtr::default();
    assert_eq!(p.address, 0);
    let q = SyncPtr::<u8> { address: 0x1000, marker: std::marker::PhantomData };
    let r = q.clone();
    assert_eq!(r.address, 0x1000);
}
