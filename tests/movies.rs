use director_decoder::cast_members::{decompress, decompress_len};
use director_decoder::cast_members::CastMemberId;
use director_decoder::chunks::{Chunk, FileInfo, FrameLabels, KeyTable, LingoContext, Score};
use director_decoder::gfx::Rgb161616;
use director_decoder::player::Player;
use director_decoder::reader::{ByteOrder, Reader};
use director_decoder::tags::{TAG_MV93, TAG_RIFX};
use director_decoder::{Error, Projector, RiffFile};

fn be32(v: u32) -> [u8; 4] {
    v.to_be_bytes()
}

fn be16(v: u16) -> [u8; 2] {
    v.to_be_bytes()
}

/// A big-endian chunk: tag, length, payload.
fn chunk(tag: &[u8; 4], payload: &[u8]) -> Vec<u8> {
    let mut out = tag.to_vec();
    out.extend_from_slice(&be32(payload.len() as u32));
    out.extend_from_slice(payload);
    out
}

/// A big-endian movie container holding `chunks`, numbered from 3 on in the
/// memory map (0 is the header, 1 the initial map, 2 the memory map).
fn container(chunks: &[(&[u8; 4], Vec<u8>)]) -> Vec<u8> {
    container_at(0, b"MV93", chunks)
}

/// The same, for a container of type `kind` that will stand at offset `base` of the file.
fn container_at(base: u32, kind: &[u8; 4], chunks: &[(&[u8; 4], Vec<u8>)]) -> Vec<u8> {
    let n = chunks.len() as u32 + 3;
    let mmap_pos = base + 12 + 16;
    let mmap_len = 24 + 20 * n;
    let mut pos = mmap_pos + 8 + mmap_len;
    let mut entries: Vec<(&[u8; 4], u32, u32)> = vec![
        (b"RIFX", 0, base),
        (b"imap", 8, base + 12),
        (b"mmap", mmap_len, mmap_pos),
    ];
    for (tag, payload) in chunks {
        entries.push((tag, payload.len() as u32, pos));
        pos += 8 + payload.len() as u32;
    }
    let mut out = b"RIFX".to_vec();
    out.extend_from_slice(&be32(pos - base - 8));
    out.extend_from_slice(kind);
    let mut imap = be32(1).to_vec();
    imap.extend_from_slice(&be32(mmap_pos));
    out.extend(chunk(b"imap", &imap));
    let mut mmap = Vec::new();
    mmap.extend_from_slice(&be16(24));
    mmap.extend_from_slice(&be16(20));
    mmap.extend_from_slice(&be32(n));
    mmap.extend_from_slice(&be32(n));
    mmap.extend_from_slice(&be32(0xFFFF_FFFF));
    mmap.extend_from_slice(&be32(0xFFFF_FFFF));
    mmap.extend_from_slice(&be32(0xFFFF_FFFF));
    for (tag, len, p) in &entries {
        mmap.extend_from_slice(*tag);
        mmap.extend_from_slice(&be32(*len));
        mmap.extend_from_slice(&be32(*p));
        mmap.extend_from_slice(&be16(0));
        mmap.extend_from_slice(&be16(0));
        mmap.extend_from_slice(&be32(0));
    }
    out.extend(chunk(b"mmap", &mmap));
    for (tag, payload) in chunks {
        out.extend(chunk(tag, payload));
    }
    out
}

fn key_table(keys: &[(u32, u32, &[u8; 4])]) -> Vec<u8> {
    let mut out = Vec::new();
    out.extend_from_slice(&be16(12));
    out.extend_from_slice(&be16(12));
    out.extend_from_slice(&be32(keys.len() as u32));
    out.extend_from_slice(&be32(keys.len() as u32));
    for (id, parent, tag) in keys {
        out.extend_from_slice(&be32(*id));
        out.extend_from_slice(&be32(*parent));
        out.extend_from_slice(*tag);
    }
    out
}

fn score(entry_count: u16, stream: &[u8]) -> Vec<u8> {
    let mut out = Vec::new();
    out.extend_from_slice(&be32(20 + stream.len() as u32));
    out.extend_from_slice(&be32(20));
    out.extend_from_slice(&be32(1));
    out.extend_from_slice(&be16(13));
    out.extend_from_slice(&be16(20));
    out.extend_from_slice(&be16(entry_count));
    out.extend_from_slice(&be16(0));
    out.extend_from_slice(stream);
    out
}

#[test]
fn opens_minimal_big_endian_container() {
    let mut buf = container(&[]);
    buf[4..8].copy_from_slice(&[0x00, 0x00, 0x00, 0x10]);
    assert_eq!(&buf[0..12], &[0x52, 0x49, 0x46, 0x58, 0x00, 0x00, 0x00, 0x10, 0x4D, 0x56, 0x39, 0x33]);
    let riff = RiffFile::new(Reader::new(&buf)).unwrap();
    assert_eq!(riff.byte_order(), ByteOrder::BigEndian);
    assert_eq!(riff.type_tag().0, TAG_MV93);
    assert_eq!(riff.size(), 0x10);
    assert_eq!(riff.imap().mmap_offset, 28);
    assert_eq!(riff.mmap().entries().len(), 3);
    assert_eq!(riff.mmap().entry_by_index(0).unwrap().tag().0, TAG_RIFX);
    for (i, e) in riff.mmap().entries().iter().enumerate() {
        assert_eq!(e.id() as usize, i);
    }
}

#[test]
fn rejects_unknown_magic() {
    let mut buf = container(&[]);
    buf[0] = b'Q';
    assert!(matches!(RiffFile::new(Reader::new(&buf)), Err(Error::InvalidMagic(_))));
}

#[test]
fn rle_long_run_then_literal() {
    let data = [0x81u8, 0xAA, 0x02, 0xBB, 0xCC, 0xDD];
    let len = decompress_len(Reader::new(&data)).unwrap();
    let mut out = Vec::new();
    decompress(Reader::new(&data), &mut out).unwrap();
    assert_eq!(len, 131);
    assert_eq!(out.len(), len);
    assert!(out[..128].iter().all(|&b| b == 0xAA));
    assert_eq!(&out[128..], &[0xBB, 0xCC, 0xDD]);
}

#[test]
fn rle_run_of_eight_then_literal_of_three() {
    let data = [0xF9u8, 0xAA, 0x02, 0xBB, 0xCC, 0xDD];
    let mut out = Vec::new();
    decompress(Reader::new(&data), &mut out).unwrap();
    assert_eq!(out, vec![0xAA, 0xAA, 0xAA, 0xAA, 0xAA, 0xAA, 0xAA, 0xAA, 0xBB, 0xCC, 0xDD]);
    assert_eq!(decompress_len(Reader::new(&data)).unwrap(), 11);
}

#[test]
fn score_delta_sets_palette_channel() {
    let stream = [0x00, 0x08, 0x00, 0x02, 0x00, 0x14, 0x00, 0x05];
    let payload = score(3, &stream);
    let mut r = Reader::new(&payload);
    r.set_byte_order(ByteOrder::BigEndian);
    let s = Score::read(&mut r, 0).unwrap();
    assert_eq!(s.frames().len(), 1);
    let f = s.get_frame(0).unwrap();
    assert_eq!(f.palette_id, Some(CastMemberId::new(5)));
    assert_eq!(f.tempo, None);
    assert!(f.sprite_channels.is_empty());
}

#[test]
fn projector_trailer_finds_little_endian_container() {
    let mut buf = vec![0x4Du8, 0x5A, 0, 0, 0, 0, 0, 0];
    let rifx_ofs = buf.len() as u32;
    let imap_pos = rifx_ofs + 12;
    let mmap_pos = imap_pos + 16;
    buf.extend_from_slice(b"XFIR");
    buf.extend_from_slice(&60u32.to_le_bytes());
    buf.extend_from_slice(b"39VM");
    buf.extend_from_slice(b"pami");
    buf.extend_from_slice(&8u32.to_le_bytes());
    buf.extend_from_slice(&1u32.to_le_bytes());
    buf.extend_from_slice(&mmap_pos.to_le_bytes());
    buf.extend_from_slice(b"pamm");
    buf.extend_from_slice(&24u32.to_le_bytes());
    buf.extend_from_slice(&24u16.to_le_bytes());
    buf.extend_from_slice(&20u16.to_le_bytes());
    buf.extend_from_slice(&0u32.to_le_bytes());
    buf.extend_from_slice(&0u32.to_le_bytes());
    buf.extend_from_slice(&[0xFF; 12]);
    let pj_pos = buf.len() as u32;
    buf.extend_from_slice(b"PJ93");
    buf.extend_from_slice(&rifx_ofs.to_le_bytes());
    for _ in 0..7 {
        buf.extend_from_slice(&0u32.to_le_bytes());
    }
    buf.extend_from_slice(&pj_pos.to_le_bytes());
    let mut projector = Projector::read(Reader::new(&buf)).unwrap();
    assert_eq!(projector.header().rifx_ofs, rifx_ofs);
    let riff = projector.read_initial_riff().unwrap();
    assert_eq!(riff.byte_order(), ByteOrder::LittleEndian);
    assert_eq!(riff.type_tag().0, TAG_MV93);
    assert_eq!(riff.imap().mmap_offset, mmap_pos);
    assert_eq!(riff.mmap().entries().len(), 0);
}

#[test]
fn file_info_strings_round_trip() {
    let mut p = Vec::new();
    p.extend_from_slice(&be32(16));
    p.extend_from_slice(&be32(7));
    p.extend_from_slice(&be32(8));
    p.extend_from_slice(&be32(9));
    p.extend_from_slice(&be16(4));
    for o in [0u32, 0, 2, 5, 9] {
        p.extend_from_slice(&be32(o));
    }
    p.extend_from_slice(&[1, b'A', 2, b'B', b'B', 3, b'C', b'C', b'C']);
    let mut r = Reader::new(&p);
    r.set_byte_order(ByteOrder::BigEndian);
    let fi = FileInfo::read(&mut r, 0).unwrap();
    assert_eq!(fi.changed_by.as_deref(), Some("A"));
    assert_eq!(fi.created_by.as_deref(), Some("BB"));
    assert_eq!(fi.orig_directory.as_deref(), Some("CCC"));
    assert_eq!(fi.unk0, 7);
    assert_eq!(fi.unk1, 8);
    assert_eq!(fi.flags, 9);
    assert_eq!(fi.script_id, None);
    assert_eq!(fi.preload, None);
}

#[test]
fn palette_member_sets_palette_on_frame_zero() {
    // Chunk ids: 3 KEY*, 4 CAS*, 5 CASt, 6 CLUT, 7 VWSC.
    let keys = key_table(&[(6, 5, b"CLUT"), (4, 1024, b"CAS*"), (7, 1024, b"VWSC")]);
    let cast_table = be32(5).to_vec();
    let mut cast = Vec::new();
    cast.extend_from_slice(&be16(1));
    cast.extend_from_slice(&be32(10));
    cast.push(4);
    cast.extend_from_slice(&be32(4));
    cast.extend_from_slice(&be16(0));
    cast.extend_from_slice(&be32(0));
    let mut clut = vec![0xFF, 0xFF, 0, 0, 0, 0];
    clut.extend(std::iter::repeat(0x11).take(255 * 6));
    let stream = [0x00, 0x08, 0x00, 0x02, 0x00, 0x14, 0x00, 0x01];
    let buf = container(&[
        (b"KEY*", keys),
        (b"CAS*", cast_table),
        (b"CASt", cast),
        (b"CLUT", clut),
        (b"VWSC", score(3, &stream)),
    ]);
    let mut riff = RiffFile::new(Reader::new(&buf)).unwrap();
    riff.read_key_table().unwrap();
    riff.read_cast_table().unwrap();
    riff.read_score().unwrap();
    let mut player = Player::new(riff, 0);
    assert!(player.time_for_new_frame(0));
    assert!(player.cast_member(CastMemberId::new(1)).is_none());
    let list = player.step_frame().unwrap();
    assert!(list.is_empty());
    assert!(player.cast_member(CastMemberId::new(1)).unwrap().as_palette().is_some());
    assert!(player.cast_member(CastMemberId::new_with_cast(1, 0)).is_none());
    assert_eq!(player.palette().index(0), Rgb161616 { r: 0xFFFF, g: 0, b: 0 });
    assert_eq!(player.palette().index(1), Rgb161616 { r: 0x1111, g: 0x1111, b: 0x1111 });
    assert_eq!(player.current_frame_number(), 0);
    assert_eq!(player.frame_duration(), Some(1_000_000_000));
    assert!(!player.time_for_new_frame(999_999_999));
    assert!(player.time_for_new_frame(1_000_000_000));
    assert!(matches!(player.step_frame(), Err(Error::NotFound)));
}

#[test]
fn score_frames_accumulate_deltas() {
    // Frame 0 writes a sprite into channel 2 and the tempo; frame 1 only
    // moves the sprite, so everything else carries over from frame 0.
    let mut stream = Vec::new();
    let sprite = [0u8, 1, 0, 0, 0, 0, 0x00, 0x07, 0x00, 0x0A, 0x00, 0x14, 0, 0, 0, 0];
    stream.extend_from_slice(&be16(2 + 4 + 1 + 4 + 16));
    stream.extend_from_slice(&be16(1));
    stream.extend_from_slice(&be16(4));
    stream.push(15);
    stream.extend_from_slice(&be16(16));
    stream.extend_from_slice(&be16(40));
    stream.extend_from_slice(&sprite);
    stream.extend_from_slice(&be16(2 + 4 + 2));
    stream.extend_from_slice(&be16(2));
    stream.extend_from_slice(&be16(48));
    stream.extend_from_slice(&be16(0x0030));
    let payload = score(4, &stream);
    let mut r = Reader::new(&payload);
    r.set_byte_order(ByteOrder::BigEndian);
    let s = Score::read(&mut r, 0).unwrap();
    assert_eq!(s.frames().len(), 2);
    let f0 = s.get_frame(0).unwrap();
    let f1 = s.get_frame(1).unwrap();
    assert_eq!(f0.tempo, Some(director_decoder::chunks::Tempo::FPS(15)));
    assert_eq!(f1.tempo, Some(director_decoder::chunks::Tempo::FPS(15)));
    assert_eq!(f0.sprite_channels.len(), 1);
    assert_eq!(f0.sprite_channels[0].0, 6);
    assert_eq!(f0.sprite_channels[0].1.cast_member_id, Some(CastMemberId::new(7)));
    assert_eq!(f0.sprite_channels[0].1.position.y, 10);
    assert_eq!(f1.sprite_channels[0].1.position.y, 0x30);
    assert_eq!(f1.sprite_channels[0].1.position.x, 20);
    assert_eq!(f1.index, 1);
}

#[test]
fn score_rejects_bad_header_and_deltas() {
    let mut r = Reader::new(&[]);
    assert!(Score::read(&mut r, 0).is_err());
    let bad_count = score(51, &[]);
    assert!(matches!(Score::read(&mut Reader::new(&bad_count), 0), Err(Error::InvalidData)));
    let to_end = [0x00, 0x08, 0x00, 0x02, 0x03, 0xE6, 0x00, 0x05];
    let s = Score::read(&mut Reader::new(&score(3, &to_end)), 0).unwrap();
    assert_eq!(s.frames().len(), 1);
    let past_end = [0x00, 0x08, 0x00, 0x02, 0x03, 0xE7, 0x00, 0x05];
    assert!(matches!(Score::read(&mut Reader::new(&score(3, &past_end)), 0), Err(Error::InvalidData)));
    let bad_tempo = [0x00, 0x07, 0x00, 0x01, 0x00, 0x04, 0xFB];
    assert!(matches!(Score::read(&mut Reader::new(&score(3, &bad_tempo)), 0), Err(Error::InvalidData)));
    let empty = score(3, &[]);
    assert_eq!(Score::read(&mut Reader::new(&empty), 0).unwrap().frames().len(), 0);
}

#[test]
fn projector_wrapper_leads_to_movie() {
    let movie = container(&[(b"KEY*", key_table(&[]))]);
    let movie_len = movie.len() as u32;
    let mut wrapper = container_at(movie_len, b"APPL", &[(b"File", Vec::new())]);
    // The File entry points at the embedded movie, which opens the file.
    wrapper[128..132].copy_from_slice(&be32(0));
    let mut buf = movie.clone();
    buf.extend_from_slice(&wrapper);
    let pj_pos = buf.len() as u32;
    buf.extend_from_slice(b"PJ93");
    buf.extend_from_slice(&movie_len.to_le_bytes());
    for _ in 0..7 {
        buf.extend_from_slice(&0u32.to_le_bytes());
    }
    buf.extend_from_slice(&pj_pos.to_le_bytes());
    let mut projector = Projector::read(Reader::new(&buf)).unwrap();
    let initial = projector.read_initial_riff().unwrap();
    assert_eq!(&initial.type_tag().0.to_be_bytes(), b"APPL");
    assert_eq!(initial.mmap().entry_by_index(3).unwrap().pos(), 0);
    let mut movie_riff = projector.read_movie_riff().unwrap();
    assert_eq!(movie_riff.type_tag().0, TAG_MV93);
    assert_eq!(movie_riff.imap().mmap_offset, 28);
    movie_riff.read_key_table().unwrap();
    assert!(movie_riff.key_table().entries.is_empty());
    assert!(matches!(movie_riff.read_config(), Err(Error::NotFound)));
}

#[test]
fn projector_without_block_is_refused() {
    let buf = [0u8, 0, 0, 0, 0, 0, 0, 0];
    assert!(matches!(Projector::read(Reader::new(&buf)), Err(Error::InvalidMagic(_))));
    assert!(Projector::read(Reader::new(&[1, 2])).is_err());
}

#[test]
fn bitmap_sprite_is_displayed_at_its_position() {
    // Chunk ids: 3 KEY*, 4 CAS*, 5 CASt (bitmap), 6 BITD, 7 VWSC.
    let keys = key_table(&[(6, 5, b"BITD"), (4, 1024, b"CAS*"), (7, 1024, b"VWSC")]);
    let mut info = Vec::new();
    info.extend_from_slice(&be16(2));
    for v in [10i16, 20, 12, 22, 0, 0, 0, 0, 1, 1] {
        info.extend_from_slice(&v.to_be_bytes());
    }
    info.push(0);
    info.push(8);
    info.extend_from_slice(&be16(1));
    let mut cast = Vec::new();
    cast.extend_from_slice(&be16(info.len() as u16 + 2));
    cast.extend_from_slice(&be32(10));
    cast.push(1);
    cast.push(0);
    cast.extend_from_slice(&info);
    cast.extend_from_slice(&be32(4));
    cast.extend_from_slice(&be16(0));
    cast.extend_from_slice(&be32(0));
    let pixels = vec![0xFDu8, 0x05];
    let mut sprite = vec![0u8, 1, 0, 0, 0, 0];
    sprite.extend_from_slice(&be16(1));
    sprite.extend_from_slice(&be16(100));
    sprite.extend_from_slice(&be16(50));
    sprite.extend_from_slice(&[0; 4]);
    let mut stream = Vec::new();
    stream.extend_from_slice(&be16(2 + 4 + 16));
    stream.extend_from_slice(&be16(16));
    stream.extend_from_slice(&be16(40));
    stream.extend_from_slice(&sprite);
    let buf = container(&[
        (b"KEY*", keys),
        (b"CAS*", be32(5).to_vec()),
        (b"CASt", cast),
        (b"BITD", pixels),
        (b"VWSC", score(3, &stream)),
    ]);
    let mut riff = RiffFile::new(Reader::new(&buf)).unwrap();
    riff.read_key_table().unwrap();
    riff.read_cast_table().unwrap();
    riff.read_score().unwrap();
    let member = riff.load_cast_member(CastMemberId::new(1)).unwrap();
    assert_eq!(member.as_bitmap().unwrap().data.as_ref().unwrap().buf(), &[0xFD, 0x05]);
    let mut player = Player::new(riff, 0);
    let list = player.step_frame().unwrap();
    assert_eq!(list.len(), 1);
    let director_decoder::player::DisplayObject::Bitmap { id, rect, image, draw_mode } = &list[0];
    assert_eq!(*id, CastMemberId::new(1));
    assert_eq!(*draw_mode, director_decoder::player::DrawMode::Copy);
    assert_eq!(*rect, director_decoder::gfx::Rect::new(109, 69, 111, 71));
    assert_eq!((image.width(), image.height()), (2, 2));
    assert_eq!(image.get_data(), &[5, 5, 5, 5]);
}

#[test]
fn resolvers_report_absent_chunks() {
    let buf = container(&[(b"KEY*", key_table(&[(4, 1024, b"VWLB")])), (b"VWLB", {
        let mut p = be16(1).to_vec();
        p.extend_from_slice(&be16(1));
        p.extend_from_slice(&be16(0));
        p.extend_from_slice(&be16(0));
        p.extend_from_slice(&be16(2));
        p.extend_from_slice(b"go");
        p
    })]);
    let mut riff = RiffFile::new(Reader::new(&buf)).unwrap();
    assert!(matches!(riff.read_chunk_by_id::<KeyTable>(99), Err(Error::NotFound)));
    assert!(matches!(riff.try_read_chunk_by_id::<KeyTable>(99), Ok(None)));
    assert!(matches!(riff.read_chunk_by_id::<KeyTable>(4), Err(Error::TagMismatch { .. })));
    assert_eq!(riff.read_chunk_by_tag::<KeyTable>().unwrap().entries.len(), 1);
    assert!(matches!(riff.try_read_chunk_by_tag::<Score>(), Ok(None)));
    assert!(matches!(riff.read_chunk_by_parent::<FrameLabels>(1024), Err(Error::NotFound)));
    riff.read_key_table().unwrap();
    let labels: FrameLabels = riff.read_chunk_by_parent(1024).unwrap();
    assert_eq!(labels.labels[0].text, "go");
    assert!(matches!(riff.try_read_chunk_by_parent::<LingoContext>(1024), Ok(None)));
    riff.read_frame_labels().unwrap();
    assert_eq!(riff.frame_labels().labels[0].number, 1);
    riff.read_file_info().unwrap();
    assert!(riff.file_info().is_none());
    assert!(matches!(riff.read_lingo_context(), Err(Error::NotFound)));
    riff.read_lingo_names().unwrap();
    riff.read_lingo_script().unwrap();
    assert!(riff.lingo_names().is_none());
    assert!(riff.lingo_script().is_none());
    assert!(matches!(riff.read_cast_table(), Err(Error::NotFound)));
    assert!(matches!(riff.load_cast_member(CastMemberId::new(1)), Err(Error::NotFound)));
    assert_eq!(riff.version().major(), 3);
}

#[test]
fn broken_child_chunk_fails_the_load_and_the_step() {
    let keys = key_table(&[(6, 5, b"CLUT"), (4, 1024, b"CAS*"), (7, 1024, b"VWSC")]);
    let mut cast = Vec::new();
    cast.extend_from_slice(&be16(1));
    cast.extend_from_slice(&be32(10));
    cast.push(4);
    cast.extend_from_slice(&be32(4));
    cast.extend_from_slice(&be16(0));
    cast.extend_from_slice(&be32(0));
    let stream = [0x00, 0x08, 0x00, 0x02, 0x00, 0x14, 0x00, 0x01];
    let buf = container(&[
        (b"KEY*", keys),
        (b"CAS*", be32(5).to_vec()),
        (b"CASt", cast),
        (b"CLUT", vec![0; 7]),
        (b"VWSC", score(3, &stream)),
    ]);
    let mut riff = RiffFile::new(Reader::new(&buf)).unwrap();
    riff.read_key_table().unwrap();
    riff.read_cast_table().unwrap();
    riff.read_score().unwrap();
    assert!(matches!(riff.load_cast_member(CastMemberId::new(1)), Err(Error::InvalidData)));
    let mut player = Player::new(riff, 0);
    assert!(matches!(player.step_frame(), Err(Error::InvalidData)));
    assert!(matches!(player.preload_cast_member(CastMemberId::new(2)), Err(Error::NotFound)));
}
