use director_decoder::cast_members::{
    decompress, decompress_len, Bitmap, BitmapInfo, CastMember, CastMemberId, CastMemberType,
    ScriptType,
};
use director_decoder::chunks::{
    read_chunk_from_reader, read_chunk_from_reader_with_tag, BitmapData, CastTable, Chunk,
    ColorLookupTable, Config, FrameLabels, InitialMap, KeyTable, LingoContext, LingoNames,
    MemoryMap, StyledText, Tempo, Thumbnail,
};
use director_decoder::gfx::{blit, ImageBuffer, IndexedImageBuffer, Palette, Pos, Rect, Rgb161616, Rgb888, Size};
use director_decoder::reader::{ByteOrder, Reader};
use director_decoder::tags::{Tag, TagAsHex, TagAsText, TAG_VWCF};
use director_decoder::version::Version;
use director_decoder::vlist::VList;
use director_decoder::{Error, ErrorKind};

fn be32(v: u32) -> [u8; 4] {
    v.to_be_bytes()
}

fn be16(v: u16) -> [u8; 2] {
    v.to_be_bytes()
}

fn big(buf: &[u8]) -> Reader<'_> {
    let mut r = Reader::new(buf);
    r.set_byte_order(ByteOrder::BigEndian);
    r
}

#[test]
fn reader_reads_in_both_orders() {
    let buf = [0x12u8, 0x34, 0x56, 0x78, 0xFF, 0xFE];
    let mut r = Reader::new(&buf);
    assert_eq!(r.byte_order(), ByteOrder::LittleEndian);
    assert_eq!(r.read_u16().unwrap(), 0x3412);
    r.seek(0);
    assert_eq!(r.read_be_u32().unwrap(), 0x12345678);
    r.seek(0);
    assert_eq!(r.read_le_u32().unwrap(), 0x78563412);
    assert_eq!(r.read_be_i16().unwrap(), -2);
    assert_eq!(r.stream_remain(), 0);
    assert_eq!(r.read_u8(), Err(Error::UnexpectedEof));
    r.set_byte_order(ByteOrder::BigEndian);
    r.seek(4);
    assert_eq!(r.read_i16().unwrap(), -2);
    r.seek(0);
    assert_eq!(r.read_i32().unwrap(), 0x12345678);
    assert_eq!(r.read_u8_at(5).unwrap(), 0xFE);
    assert_eq!(r.read_be_u16_at(1).unwrap(), 0x3456);
    assert_eq!(r.read_be_i16_at(4).unwrap(), -2);
    assert_eq!(r.read_be_u16_at(5), Err(Error::UnexpectedEof));
    assert_eq!(r.read_i8().unwrap(), -2);
    assert_eq!(r.read_i8().unwrap_err(), Error::UnexpectedEof);
}

#[test]
fn reader_seeks_and_carves() {
    let buf = [1u8, 2, 3, 4, 5, 6];
    let mut r = Reader::new(&buf);
    r.seek_relative(2).unwrap();
    assert_eq!(r.stream_position(), 2);
    assert_eq!(r.seek_relative(-3), Err(Error::InvalidSeek));
    assert_eq!(r.stream_position(), 2);
    let mut sub = r.subset(1, 3);
    assert_eq!(sub.stream_len(), 3);
    assert_eq!(sub.read_u8().unwrap(), 2);
    let rest = r.remaining();
    assert_eq!(rest.stream_len(), 4);
    r.seek_from_end(-1).unwrap();
    assert_eq!(r.read_u8().unwrap(), 6);
    assert_eq!(r.seek_from_end(-7), Err(Error::InvalidSeek));
    let mut out = vec![9u8];
    r.seek(4);
    assert_eq!(r.read_to_end(&mut out), 2);
    assert_eq!(out, vec![9, 5, 6]);
    r.seek(10);
    assert_eq!(r.stream_remain(), 0);
    assert_eq!(r.read_u8(), Err(Error::UnexpectedEof));
    let mut c = Reader::new(&buf);
    assert_eq!(c.read_bytes(3).unwrap(), vec![1, 2, 3]);
    assert_eq!(c.read_bytes(4), Err(Error::UnexpectedEof));
}

#[test]
fn strings_are_latin1_and_stop_at_nul() {
    let buf = [4u8, b'c', b'a', b'f', 0xE9, 3, b'a', 0, b'b'];
    let mut r = Reader::new(&buf);
    assert_eq!(r.read_pascal_str().unwrap(), "caf\u{e9}");
    assert_eq!(r.read_pascal_str().unwrap(), "a");
    assert_eq!(r.stream_remain(), 0);
    let mut r = Reader::new(&buf[5..]);
    assert_eq!(r.read_fixed_str(2).unwrap(), "\u{3}a");
    assert_eq!(r.read_fixed_str(5), Err(Error::UnexpectedEof));
    let short = [5u8, b'x'];
    assert_eq!(Reader::new(&short).read_pascal_str(), Err(Error::UnexpectedEof));
}

#[test]
fn tags_show_as_text_and_hex() {
    let t = Tag::new(0x52494658);
    assert_eq!(t.to_text(), "RIFX");
    assert_eq!(t.to_hex_text(), "52 49 46 58");
    assert_eq!(TagAsText(0x4341532A).to_text(), "CAS*");
    assert_eq!(TagAsText(0x00200A41).to_text(), "...A");
    assert_eq!(TagAsHex(Tag(0x0A1B2C3D)).to_text(), "0A 1B 2C 3D");
    assert!(Tag(1) < Tag(2));
    let v: u32 = 0x4D563933;
    assert_eq!(Tag(v).to_text().as_bytes(), &v.to_be_bytes());
}

#[test]
fn version_table_lookup() {
    let keys = [
        (0x404u16, 300u16), (0x405, 310), (0x45B, 400), (0x45D, 404), (0x4B1, 500), (0x4C2, 600),
        (0x4C8, 700), (0x582, 800), (0x6A4, 850), (0x73B, 1000), (0x781, 1100), (0x782, 1150),
        (0x79F, 1200),
    ];
    for (k, h) in keys {
        let v = Version::new(k);
        assert_eq!(v.major() * 100 + v.minor(), h);
        assert_eq!(v.raw(), k);
    }
    let v = Version::new(0x4C7);
    assert_eq!((v.major(), v.minor()), (6, 0));
    let v = Version::new(0x100);
    assert_eq!((v.major(), v.minor()), (3, 0));
    let v = Version::new(0xFFFF);
    assert_eq!((v.major(), v.minor()), (12, 0));
    let d = Version::default();
    assert_eq!((d.major(), d.minor(), d.raw()), (3, 0, 300));
}

#[test]
fn tempo_codes() {
    assert_eq!(Tempo::try_from(0), Ok(Tempo::Off));
    assert_eq!(Tempo::try_from(30), Ok(Tempo::FPS(30)));
    assert_eq!(Tempo::try_from(-121), Ok(Tempo::WaitForSoundChannel1));
    assert_eq!(Tempo::try_from(-122), Ok(Tempo::WaitForSoundChannel2));
    assert_eq!(Tempo::try_from(-128), Ok(Tempo::WaitForMouse));
    assert!(Tempo::try_from(-5).is_err());
    assert_eq!(Tempo::default(), Tempo::FPS(1));
}

#[test]
fn geometry() {
    let r = Rect::new(10, 20, 30, 60);
    assert_eq!(r.width(), 40);
    assert_eq!(r.height(), 20);
    assert!(!r.is_empty());
    assert!(Rect::new(0, 0, 5, 0).is_empty());
    let m = r.translate(Pos::new(1, -2));
    assert_eq!(m, Rect::new(11, 18, 31, 58));
    assert_eq!(Pos::new(3, -4).neg(), Pos::new(-3, 4));
    assert_eq!(Rect::new(i16::MAX, 0, 0, 0).translate(Pos::new(1, 0)).y0, i16::MIN);
    assert_eq!(Rect::new(0, i16::MIN, 0, i16::MAX).width(), 65535);
    assert!(Size::new(0, 3).is_empty());
    assert!(!Size::new(2, 3).is_empty());
}

#[test]
fn colours() {
    let c = Rgb888 { r: 0x12, g: 0x34, b: 0x56 };
    assert_eq!(c.to_u32(), 0xFF123456);
    assert_eq!(Rgb888::from_u32(0x00ABCDEF), Rgb888 { r: 0xAB, g: 0xCD, b: 0xEF });
    assert_eq!(Rgb161616::from_rgb888(c), Rgb161616 { r: 0x1200, g: 0x3400, b: 0x5600 });
    assert_eq!(Rgb888::from_rgb161616(Rgb161616::new(0xFFFF, 0x0180, 0)), Rgb888 { r: 0xFF, g: 0x01, b: 0 });
    let mut p = Palette::new();
    assert_eq!(p.index(255), Rgb161616::new(0, 0, 0));
    p.set(7, Rgb161616::new(0x8000, 0x4000, 0x2000));
    assert_eq!(p.get_rgb888(7), Some(Rgb888 { r: 0x80, g: 0x40, b: 0x20 }));
    p.set_entry(255, Rgb161616::new(1, 2, 3));
    assert_eq!(p.index(255), Rgb161616::new(1, 2, 3));
}

#[test]
fn images_ignore_out_of_bounds() {
    let mut img = IndexedImageBuffer::new_owned(3, 2);
    img.set_color_index(2, 1, 9);
    img.set_color_index(3, 0, 7);
    img.set_color_index(-1, 0, 7);
    assert_eq!(img.get_color_index(2, 1), Some(9));
    assert_eq!(img.get_color_index(3, 0), None);
    assert_eq!(img.get_data(), &[0, 0, 0, 0, 0, 9]);
    img.get_mut_data()[0] = 4;
    assert_eq!(img.get_color_index(0, 0), Some(4));
    let mut out = ImageBuffer::new_owned(2, 2);
    out.set_pixel(1, 0, Rgb888 { r: 1, g: 2, b: 3 });
    out.set_pixel(0, 5, Rgb888 { r: 1, g: 2, b: 3 });
    assert_eq!(out.get_data(), &[0, 0xFF010203, 0, 0]);
    assert_eq!(out.get_pixel(1, 0), Some(Rgb888 { r: 1, g: 2, b: 3 }));
    assert_eq!(out.get_pixel(2, 0), None);
    assert_eq!(out.to_rgba(), vec![0, 0, 0, 0, 1, 2, 3, 0xFF, 0, 0, 0, 0, 0, 0, 0, 0]);
    let mut pal = Palette::new();
    pal.set(9, Rgb161616::new(0xFF00, 0, 0x0100));
    assert_eq!(&img.to_rgba(&pal)[20..24], &[0xFF, 0, 1, 255]);
}

#[test]
fn blit_scales_and_keys() {
    let mut src = IndexedImageBuffer::new_owned(2, 2);
    src.set_color_index(0, 0, 1);
    src.set_color_index(1, 0, 2);
    src.set_color_index(0, 1, 3);
    src.set_color_index(1, 1, 0);
    let mut pal = Palette::new();
    pal.set(1, Rgb161616::new(0x0100, 0, 0));
    pal.set(2, Rgb161616::new(0x0200, 0, 0));
    pal.set(3, Rgb161616::new(0x0300, 0, 0));
    let mut dst = ImageBuffer::new_owned(5, 4);
    blit(&mut dst, Rect::new(0, 1, 4, 5), &src, Rect::new(0, 0, 2, 2), &pal, Some(0));
    let d = dst.get_data();
    let row = |y: usize| d[y * 5..y * 5 + 5].to_vec();
    assert_eq!(row(0), vec![0, 0xFF010000, 0xFF010000, 0xFF020000, 0xFF020000]);
    assert_eq!(row(3), vec![0, 0xFF030000, 0xFF030000, 0, 0]);
    let mut untouched = ImageBuffer::new_owned(2, 2);
    blit(&mut untouched, Rect::new(0, 0, 0, 2), &src, Rect::new(0, 0, 2, 2), &pal, None);
    assert_eq!(untouched.get_data(), &[0, 0, 0, 0]);
}

fn key_payload(keys: &[(u32, u32, u32)]) -> Vec<u8> {
    let mut out = Vec::new();
    out.extend_from_slice(&be16(12));
    out.extend_from_slice(&be16(12));
    out.extend_from_slice(&be32(keys.len() as u32));
    out.extend_from_slice(&be32(keys.len() as u32));
    for (id, parent, tag) in keys {
        out.extend_from_slice(&be32(*id));
        out.extend_from_slice(&be32(*parent));
        out.extend_from_slice(&be32(*tag));
    }
    out
}

#[test]
fn key_table_lookup_and_ranges() {
    let p = key_payload(&[(7, 5, 2), (8, 5, 3), (9, 1024, 1), (10, 1024, 1), (11, 1024, 4)]);
    let k = KeyTable::read(&mut big(&p), 0).unwrap();
    assert_eq!(k.find_id_of_chunk_with_parent(Tag(1), 1024), Some(9));
    assert_eq!(k.find_id_of_chunk_with_parent(Tag(3), 5), Some(8));
    assert_eq!(k.find_id_of_chunk_with_parent(Tag(2), 1024), None);
    let mut it = k.chunks_with_parent(1024);
    let mut ids = Vec::new();
    while let Some(e) = it.next() {
        ids.push(e.id());
    }
    assert_eq!(ids, vec![9, 10, 11]);
    assert!(k.chunks_with_parent(6).next().is_none());
    let e = k.chunks_with_parent(5).next().unwrap();
    assert_eq!((e.id(), e.parent(), e.tag()), (7, 5, Tag(2)));
}

#[test]
fn key_table_rejects_disorder_and_sentinels() {
    let unsorted = key_payload(&[(7, 6, 2), (8, 5, 3)]);
    assert_eq!(KeyTable::read(&mut big(&unsorted), 0).unwrap_err(), Error::InvalidData);
    let sentinel = key_payload(&[(u32::MAX, 5, 2)]);
    assert_eq!(KeyTable::read(&mut big(&sentinel), 0).unwrap_err(), Error::InvalidData);
    let parent_sentinel = key_payload(&[(3, u32::MAX, 2)]);
    assert_eq!(KeyTable::read(&mut big(&parent_sentinel), 0).unwrap_err(), Error::InvalidData);
    let short = &key_payload(&[(1, 2, 3)])[..20];
    assert_eq!(KeyTable::read(&mut big(short), 0).unwrap_err(), Error::UnexpectedEof);
}

#[test]
fn memory_map_numbers_entries() {
    let mut p = Vec::new();
    p.extend_from_slice(&be16(24));
    p.extend_from_slice(&be16(20));
    p.extend_from_slice(&be32(4));
    p.extend_from_slice(&be32(2));
    p.extend_from_slice(&[0; 12]);
    for (tag, pos) in [(b"free", 100u32), (b"KEY*", 200)] {
        p.extend_from_slice(tag);
        p.extend_from_slice(&be32(16));
        p.extend_from_slice(&be32(pos));
        p.extend_from_slice(&[0; 8]);
    }
    let m = MemoryMap::read(&mut big(&p), 0).unwrap();
    assert_eq!(m.chunk_count_used, 2);
    assert_eq!(m.entry_by_index(1).unwrap().pos(), 200);
    assert_eq!(m.entry_by_index(1).unwrap().len(), 16);
    assert!(m.entry_by_index(2).is_none());
    assert_eq!(m.first_entry_with_tag(Tag(0x4B45592A)).unwrap().id(), 1);
    assert!(m.first_entry_with_tag(Tag(0x41414141)).is_none());
    assert_eq!(MemoryMap::read(&mut big(&p[..40]), 0).unwrap_err(), Error::UnexpectedEof);
}

#[test]
fn framing_checks_tag_and_tolerates_final_length() {
    let mut buf = b"imap".to_vec();
    buf.extend_from_slice(&be32(8));
    buf.extend_from_slice(&be32(1));
    buf.extend_from_slice(&be32(44));
    let imap: InitialMap = read_chunk_from_reader(&mut big(&buf), 1).unwrap();
    assert_eq!((imap.mmap_version, imap.mmap_offset), (1, 44));
    let wrong = read_chunk_from_reader_with_tag::<InitialMap>(&mut big(&buf), 1, Tag(TAG_VWCF));
    assert_eq!(
        wrong.unwrap_err(),
        Error::TagMismatch { expected: Tag(TAG_VWCF), found: Tag(0x696D6170), position: 0 }
    );
    let mut last = b"BITD".to_vec();
    last.extend_from_slice(&be32(99));
    let data: BitmapData = read_chunk_from_reader(&mut big(&last), 0).unwrap();
    assert!(data.buf().is_empty());
    let mut long = b"BITD".to_vec();
    long.extend_from_slice(&be32(99));
    long.push(0);
    assert_eq!(
        read_chunk_from_reader::<BitmapData>(&mut big(&long), 0).unwrap_err(),
        Error::Truncated { tag: Tag(0x42495444), position: 0 }
    );
    let mut short_imap = b"imap".to_vec();
    short_imap.extend_from_slice(&be32(4));
    short_imap.extend_from_slice(&be32(1));
    short_imap.push(0);
    assert_eq!(
        read_chunk_from_reader::<InitialMap>(&mut big(&short_imap), 1).unwrap_err(),
        Error::Truncated { tag: Tag(0x696D6170), position: 0 }
    );
    assert_eq!(
        read_chunk_from_reader::<InitialMap>(&mut big(&short_imap[..6]), 1).unwrap_err(),
        Error::Truncated { tag: Tag(0x696D6170), position: 0 }
    );
}

#[test]
fn cast_table_skips_empty_slots() {
    let mut p = Vec::new();
    for id in [10u32, 0, 12] {
        p.extend_from_slice(&be32(id));
    }
    p.push(0xAA);
    let t = CastTable::read(&mut big(&p), 0).unwrap();
    assert_eq!(t.cast_member_ids().clone(), vec![(1i16, 10u32), (3, 12)]);
    assert_eq!(t.cast_member_chunk_id(CastMemberId::new(3)), Some(12));
    assert_eq!(t.cast_member_chunk_id(CastMemberId::new(2)), None);
    assert_eq!(t.cast_member_chunk_id(CastMemberId::new_with_cast(1, 4)), Some(10));
}

#[test]
fn frame_labels_follow_the_table() {
    let mut p = Vec::new();
    p.extend_from_slice(&be16(2));
    for (frame, off) in [(1u16, 0u16), (5, 3), (0, 5)] {
        p.extend_from_slice(&be16(frame));
        p.extend_from_slice(&be16(off));
    }
    p.extend_from_slice(b"oneto");
    let f = FrameLabels::read(&mut big(&p), 0).unwrap();
    assert_eq!(f.labels.len(), 2);
    assert_eq!((f.labels[0].number, f.labels[0].text.as_str()), (1, "one"));
    assert_eq!((f.labels[1].number, f.labels[1].text.as_str()), (5, "to"));
    assert!(!f.is_empty());
    let mut bad = p.clone();
    bad[8..10].copy_from_slice(&be16(9));
    assert_eq!(FrameLabels::read(&mut big(&bad), 0).unwrap_err(), Error::InvalidData);
}

#[test]
fn config_optional_fields() {
    let mut p = Vec::new();
    for v in [36u16, 0x45D, 0, 0, 480, 640, 1, 9] {
        p.extend_from_slice(&be16(v));
    }
    let c = Config::read(&mut big(&p), 0).unwrap();
    assert_eq!((c.movie_right, c.movie_bottom, c.director_version, c.default_palette_id), (640, 480, None, None));
    p.resize(72, 0);
    p[36..38].copy_from_slice(&be16(0x4C8));
    p[70..72].copy_from_slice(&(-3i16).to_be_bytes());
    let c = Config::read(&mut big(&p), 0).unwrap();
    assert_eq!(c.director_version, Some(0x4C8));
    assert_eq!(c.default_palette_id, Some(-4));
    p[70..72].copy_from_slice(&be16(5));
    assert_eq!(Config::read(&mut big(&p), 0).unwrap().default_palette_id, Some(5));
    assert_eq!(Config::read(&mut big(&p[..15]), 0).unwrap_err(), Error::UnexpectedEof);
}

#[test]
fn colour_lookup_table_sizes() {
    let p = [0xFFu8, 0xFF, 0, 1, 0x80, 0];
    let t = ColorLookupTable::read(&mut big(&p), 0).unwrap();
    assert_eq!(t.colors, vec![Rgb161616::new(0xFFFF, 1, 0x8000)]);
    assert_eq!(ColorLookupTable::read(&mut big(&p[..5]), 0).unwrap_err(), Error::InvalidData);
    let too_many = vec![0u8; 257 * 6];
    assert_eq!(ColorLookupTable::read(&mut big(&too_many), 0).unwrap_err(), Error::InvalidData);
}

#[test]
fn styled_text_runs() {
    let mut p = Vec::new();
    p.extend_from_slice(&be32(12));
    p.extend_from_slice(&be32(2));
    p.extend_from_slice(&be32(42));
    p.extend_from_slice(b"hi");
    p.extend_from_slice(&be16(2));
    p.extend_from_slice(&be32(0));
    p.extend_from_slice(&[0; 16]);
    p.extend_from_slice(&(-1i32).to_be_bytes());
    let t = StyledText::read(&mut big(&p), 0).unwrap();
    assert_eq!(t.text, b"hi".to_vec());
    assert_eq!(t.style_runs.len(), 2);
    assert_eq!(t.style_runs[1].start_offset, -1);
    let mut bad = p.clone();
    bad[3] = 13;
    assert_eq!(StyledText::read(&mut big(&bad), 0).unwrap_err(), Error::InvalidData);
    let mut wrong_size = p.clone();
    wrong_size[11] = 40;
    assert_eq!(StyledText::read(&mut big(&wrong_size), 0).unwrap_err(), Error::InvalidData);
}

#[test]
fn lingo_context_and_names() {
    let mut p = vec![0u8; 42];
    p[8..12].copy_from_slice(&be32(2));
    p[16..18].copy_from_slice(&be16(42));
    p[32..36].copy_from_slice(&be32(77));
    for sid in [5u32, u32::MAX] {
        p.extend_from_slice(&be32(0));
        p.extend_from_slice(&be32(sid));
        p.extend_from_slice(&[0; 4]);
    }
    let c = LingoContext::read(&mut big(&p), 0).unwrap();
    assert_eq!(c.names_chunk_id(), 77);
    assert_eq!(c.entries()[0].script_id(), Some(5));
    assert_eq!(c.entries()[1].script_id(), None);
    let mut n = vec![0u8; 20];
    n[16..18].copy_from_slice(&be16(20));
    n[18..20].copy_from_slice(&be16(2));
    n.extend_from_slice(&[2, b'g', b'o', 3, b'n', b'e', b'w']);
    let names = LingoNames::read(&mut big(&n), 0).unwrap();
    assert_eq!(names.names, vec!["go".to_string(), "new".to_string()]);
    assert!(LingoNames::read(&mut big(&n[..25]), 0).is_err());
}

#[test]
fn vlist_checks_offsets() {
    let mut p = Vec::new();
    p.extend_from_slice(&be32(8));
    p.extend_from_slice(&be16(0x1234));
    p.extend_from_slice(&be16(0x5678));
    p.extend_from_slice(&be16(2));
    for o in [0u32, 2, 2] {
        p.extend_from_slice(&be32(o));
    }
    p.extend_from_slice(&[1, b'z']);
    let v = VList::read_u16(&mut big(&p)).unwrap();
    assert_eq!(v.fixed_number(1), Some(0x5678));
    assert_eq!(v.fixed_number(2), None);
    assert_eq!(v.try_get_as_pascal_str(0).unwrap(), Some("z".to_string()));
    assert_eq!(v.try_get_as_pascal_str(1).unwrap(), None);
    assert!(v.get(2).is_none());
    let mut entries = v.entries();
    assert_eq!(entries.next().unwrap().reader().stream_len(), 2);
    assert!(entries.next().is_none());
    assert_eq!(VList::read_u32(&mut big(&p)).unwrap().fixed_number(0), Some(0x12345678));
    let mut bad = p.clone();
    bad[0..4].copy_from_slice(&be32(2));
    assert!(matches!(VList::read_u16(&mut big(&bad)), Err(Error::InvalidData)));
    let mut down = p.clone();
    down[16..20].copy_from_slice(&be32(1));
    assert!(matches!(VList::read_u16(&mut big(&down)), Err(Error::InvalidData)));
}

fn cast_payload(type_id: u8, data: &[u8], name: Option<&str>) -> Vec<u8> {
    let mut list = Vec::new();
    list.extend_from_slice(&be32(4));
    list.extend_from_slice(&be16(2));
    let item: Vec<u8> = match name {
        Some(n) => {
            let mut v = vec![n.len() as u8];
            v.extend_from_slice(n.as_bytes());
            v
        }
        None => Vec::new(),
    };
    for o in [0u32, 0, item.len() as u32] {
        list.extend_from_slice(&be32(o));
    }
    list.extend_from_slice(&item);
    let mut p = Vec::new();
    p.extend_from_slice(&be16(data.len() as u16 + 2));
    p.extend_from_slice(&be32(list.len() as u32));
    p.push(type_id);
    p.push(0);
    p.extend_from_slice(data);
    p.extend_from_slice(&list);
    p
}

#[test]
fn cast_members_by_type() {
    let mut info = Vec::new();
    info.extend_from_slice(&be16(0xF004));
    for v in [0i16, 0, 2, 4, 0, 0, 0, 0, 1, 2] {
        info.extend_from_slice(&v.to_be_bytes());
    }
    info.push(0);
    info.push(8);
    info.extend_from_slice(&3i16.to_be_bytes());
    let p = cast_payload(1, &info, Some("pic"));
    let m = CastMember::read(&mut big(&p), 9).unwrap();
    assert_eq!(m.cast_member_type(), CastMemberType::Bitmap);
    let b = m.as_bitmap().unwrap();
    assert_eq!(b.name.as_deref(), Some("pic"));
    assert_eq!(b.info.pitch, 4);
    assert_eq!(b.info.rect, Rect::new(0, 0, 2, 4));
    assert_eq!(b.info.reg, Pos::new(1, 2));
    assert_eq!((b.info.bit_depth, b.info.palette_id), (8, 2));
    assert_eq!((b.info.width(), b.info.height()), (4, 2));
    assert!(b.data.is_none());
    let script = cast_payload(11, &be16(3), None);
    match CastMember::read(&mut big(&script), 1).unwrap() {
        CastMember::Script(s) => assert_eq!(s.script_type, ScriptType::Movie),
        other => panic!("unexpected {:?}", other),
    }
    let bad_script = cast_payload(11, &be16(2), None);
    assert_eq!(CastMember::read(&mut big(&bad_script), 1).unwrap_err(), Error::InvalidData);
    let bad_type = cast_payload(13, &[], None);
    assert_eq!(CastMember::read(&mut big(&bad_type), 1).unwrap_err(), Error::InvalidData);
    let pal = cast_payload(4, &[], None);
    let pm = CastMember::read(&mut big(&pal), 1).unwrap();
    assert!(pm.as_palette().unwrap().clut.is_none());
    assert!(pm.as_bitmap().is_none());
    assert_eq!(CastMemberType::try_from(12), Ok(CastMemberType::RTE));
    assert_eq!(CastMemberType::DigitalVideo.to_text(), "DigitalVideo");
    assert_eq!(pm.cast_member_type().to_text(), "Palette");
    assert!(CastMemberType::try_from(13).is_err());
}

#[test]
fn bitmap_info_defaults_when_short() {
    let mut info = Vec::new();
    info.extend_from_slice(&be16(8));
    info.extend_from_slice(&[0; 20]);
    let b = BitmapInfo::read(Reader::new(&info), 0).unwrap();
    assert_eq!((b.bit_depth, b.palette_id), (1, 0));
    assert_eq!(BitmapInfo::read(Reader::new(&info[..21]), 0).unwrap_err(), Error::UnexpectedEof);
}

#[test]
fn eight_bit_bitmap_decodes_whole_rows() {
    let info = BitmapInfo { pitch: 4, rect: Rect::new(0, 0, 2, 4), reg: Pos::new(0, 0), bit_depth: 8, palette_id: 0 };
    let data = BitmapData::new(vec![0xFB, 7, 0x01, 1, 2]);
    let bitmap = Bitmap { name: None, info, data: Some(data), thumbnail: None };
    let img = bitmap.image().unwrap();
    assert_eq!((img.width(), img.height()), (4, 2));
    assert_eq!(img.get_data(), &[7, 7, 7, 7, 7, 7, 1, 2]);
    let broken = Bitmap { name: None, info, data: Some(BitmapData::new(vec![0x05, 1])), thumbnail: None };
    assert!(broken.image().is_none());
    let shallow = BitmapInfo { bit_depth: 1, ..info };
    let blank = Bitmap { name: None, info: shallow, data: Some(BitmapData::new(vec![])), thumbnail: None };
    let img = blank.image().unwrap();
    assert_eq!((img.width(), img.height()), (4, 2));
    assert!(img.get_data().iter().all(|&b| b == 0));
}

#[test]
fn truncated_runs_are_invalid() {
    assert_eq!(decompress_len(Reader::new(&[0x80])), Err(Error::InvalidData));
    assert_eq!(decompress_len(Reader::new(&[0x03, 1, 2])), Err(Error::InvalidData));
    let mut out = Vec::new();
    assert_eq!(decompress(Reader::new(&[0x02, 1]), &mut out), Err(Error::InvalidData));
    assert_eq!(decompress_len(Reader::new(&[])), Ok(0));
}

#[test]
fn thumbnail_of_empty_chunk_is_absent() {
    assert!(Thumbnail::read(&mut big(&[]), 0).unwrap().buf().is_none());
    assert_eq!(Thumbnail::read(&mut big(&[1, 2]), 0).unwrap().buf(), Some(&[1u8, 2][..]));
}

#[test]
fn error_kinds() {
    assert_eq!(Error::NotFound.kind(), ErrorKind::NotFound);
    assert_eq!(Error::InvalidData.kind(), ErrorKind::InvalidData);
    assert_eq!(Error::UnexpectedEof.kind(), ErrorKind::InvalidData);
    assert_eq!(Error::InvalidMagic(Tag(0)).kind(), ErrorKind::InvalidData);
    assert_eq!(Error::InvalidSeek.kind(), ErrorKind::InvalidData);
    assert_eq!(Error::Truncated { tag: Tag(1), position: 2 }.kind(), ErrorKind::InvalidData);
}

#[test]
fn hex_dump_lines() {
    let buf = [0x41u8, 0x42, 0x00, 0x7F, 0x20];
    let r = Reader::new(&buf);
    let lines = r.hex_dump_opt(2);
    assert_eq!(lines.len(), 3);
    assert_eq!(lines[0], format!("{:08x} {:48} {}", 0, "41 42", "AB"));
    assert_eq!(lines[1], format!("{:08x} {:48} {}", 2, "00 7f", ".."));
    assert_eq!(lines[2], format!("{:08x} {:48} {}", 4, "20", "."));
    let all: Vec<u8> = (0u8..20).collect();
    let lines = Reader::new(&all).hex_dump();
    assert_eq!(lines.len(), 2);
    assert_eq!(lines[1], format!("{:08x} {:48} {}", 16, "10 11 12 13", "...."));
    assert!(Reader::new(&[]).hex_dump().is_empty());
}

#[test]
fn tall_bitmap_decodes_every_row() {
    let mut stream = Vec::new();
    for _ in 0..129 {
        stream.extend_from_slice(&[0x81, 3]);
    }
    let info = BitmapInfo { pitch: 1, rect: Rect::new(0, 0, 1, 1), reg: Pos::new(0, 0), bit_depth: 8, palette_id: 0 };
    let bitmap = Bitmap { name: None, info, data: Some(BitmapData::new(stream)), thumbnail: None };
    let img = bitmap.image().unwrap();
    assert_eq!((img.width(), img.height()), (1, 129 * 128));
    assert!(img.height() >= 0x4000);
    assert!(img.get_data().iter().all(|&b| b == 3));
    let zero_pitch = Bitmap { name: None, info: BitmapInfo { pitch: 0, ..info }, data: Some(BitmapData::new(vec![0, 1])), thumbnail: None };
    assert!(zero_pitch.image().is_none());
}
