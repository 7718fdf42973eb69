use graphics::color::Color;
use graphics::png::bytes::{be_bytes_to_u32, u32_to_be_bytes};
use graphics::png::chunk::{split_into_chunks, Chunk, ChunkDecoder};
use graphics::png::crc::{crc, update_crc, CrcTable};
use graphics::png::decode::{PngReader, RowDecoder};
use graphics::png::encode::PngWriter;
use graphics::png::filter::{apply_filter, paeth_predictor, remove_filter, FilterType};
use graphics::png::header::{gAMA, parse_ihdr_data, tRNS, valid_bit_depth, PngHeader, PLTE};
use graphics::png::unpack::{gray_scale_one_bit, gray_scale_sixteen_bits, gray_scale_two_bits, palette_index_eight_bits, rgba_sixteen_bits, unpack_row};
use graphics::png::zlib::decompress_zlib;
use graphics::png::PNGError;

const SIGNATURE: [u8; 8] = [137, 80, 78, 71, 13, 10, 26, 10];

fn header_bytes(w: u32, h: u32, bit_depth: u8, color_type: u8) -> Vec<u8> {
    let mut d = Vec::new();
    d.extend_from_slice(&w.to_be_bytes());
    d.extend_from_slice(&h.to_be_bytes());
    d.extend_from_slice(&[bit_depth, color_type, 0, 0, 0]);
    d
}

fn stream(chunks: &[Chunk]) -> Vec<u8> {
    let mut out = SIGNATURE.to_vec();
    for c in chunks {
        c.write_all(&mut out);
    }
    out
}

fn image_stream(w: u32, h: u32, bit_depth: u8, color_type: u8, raw: &[u8], extra: Vec<Chunk>) -> Vec<u8> {
    let mut chunks = vec![Chunk::new(*b"IHDR", header_bytes(w, h, bit_depth, color_type))];
    chunks.extend(extra);
    chunks.push(Chunk::new(*b"IDAT", miniz_oxide::deflate::compress_to_vec_zlib(raw, 6)));
    chunks.push(Chunk::new(*b"IEND", Vec::new()));
    stream(&chunks)
}

fn sample_pixels() -> Vec<Color> {
    vec![
        Color::rgba(0, 0, 0, 0),
        Color::rgba(255, 255, 255, 255),
        Color::rgba(1, 2, 3, 4),
        Color::rgba(200, 100, 50, 128),
        Color::rgba(9, 8, 7, 6),
        Color::rgba(255, 0, 0, 255),
    ]
}

#[test]
fn round_trip_identity() {
    let pixels = sample_pixels();
    let writer = PngWriter::new(3, 2, &pixels).unwrap();
    let bytes = writer.write().unwrap();
    assert_eq!(&bytes[..8], &SIGNATURE);
    let image = PngReader::read(&bytes).unwrap();
    assert_eq!(image.width(), 3);
    assert_eq!(image.height(), 2);
    assert_eq!(image.header().color_type, 6);
    assert_eq!(image.header().bit_depth, 8);
    assert_eq!(image.pixels().unwrap(), pixels);
}

#[test]
fn round_trip_single_pixel_and_wide_row() {
    let one = vec![Color::rgba(12, 34, 56, 78)];
    let bytes = PngWriter::new(1, 1, &one).unwrap().write().unwrap();
    assert_eq!(PngReader::read(&bytes).unwrap().pixels().unwrap(), one);
    let row: Vec<Color> = (0..40u8).map(|i| Color::rgba(i, 255 - i, i / 2, 255)).collect();
    let bytes = PngWriter::new(40, 1, &row).unwrap().write().unwrap();
    assert_eq!(PngReader::read(&bytes).unwrap().pixels().unwrap(), row);
}

#[test]
fn writer_rejects_mismatched_size() {
    let pixels = sample_pixels();
    assert!(matches!(PngWriter::new(4, 2, &pixels), Err(PNGError::InvalidImageSize)));
    assert!(matches!(PngWriter::new(0, 0, &[]), Err(PNGError::InvalidImageSize)));
}

#[test]
fn writer_emits_extra_chunks() {
    let pixels = sample_pixels();
    let mut writer = PngWriter::new(3, 2, &pixels).unwrap();
    writer.add_chunk(Chunk::new(*b"tEXt", b"hello".to_vec()));
    writer.add_chunk(Chunk::new(*b"zzZZ", vec![1, 2, 3]));
    assert_eq!(writer.get_chunk(1).unwrap().data(), &[1, 2, 3]);
    writer.remove_chunks(*b"tEXt");
    assert_eq!(writer.get_chunk(0).unwrap().c_type(), *b"zzZZ");
    assert!(writer.get_chunk(1).is_none());
    let bytes = writer.write().unwrap();
    let image = PngReader::read(&bytes).unwrap();
    assert_eq!(image.non_data_chunks().len(), 1);
    assert_eq!(image.non_data_chunks()[0].c_type(), *b"zzZZ");
    assert_eq!(image.pixels().unwrap(), pixels);
    writer.remove(0);
    assert!(writer.get_chunk(0).is_none());
}

#[test]
fn signature_rejection() {
    assert!(matches!(PngReader::read(&[]), Err(PNGError::InvalidSignature)));
    assert!(matches!(PngReader::read(&[137, 80, 78]), Err(PNGError::InvalidSignature)));
    let pixels = sample_pixels();
    let mut bytes = PngWriter::new(3, 2, &pixels).unwrap().write().unwrap();
    bytes[0] = 0x88;
    assert!(matches!(PngReader::read(&bytes), Err(PNGError::InvalidSignature)));
}

/// Offset of the CRC field of the image data chunk in a stream from the writer.
fn idat_offsets(bytes: &[u8]) -> (usize, usize) {
    // signature (8) + header chunk (25)
    let start = 8 + 25;
    let len = u32::from_be_bytes([bytes[start], bytes[start + 1], bytes[start + 2], bytes[start + 3]]) as usize;
    (start + 8, start + 8 + len)
}

#[test]
fn crc_enforcement_on_image_data() {
    let pixels = sample_pixels();
    let bytes = PngWriter::new(3, 2, &pixels).unwrap().write().unwrap();
    let (payload, crc_at) = idat_offsets(&bytes);
    for bit in 0..8 {
        let mut flipped = bytes.clone();
        flipped[crc_at + 2] ^= 1 << bit;
        assert!(matches!(PngReader::read(&flipped), Err(PNGError::CrcMismatch)));
        let mut flipped = bytes.clone();
        flipped[payload + 1] ^= 1 << bit;
        assert!(matches!(PngReader::read(&flipped), Err(PNGError::CrcMismatch)));
    }
}

#[test]
fn crc_tolerance_on_ancillary_chunk() {
    let pixels = sample_pixels();
    let mut writer = PngWriter::new(3, 2, &pixels).unwrap();
    writer.add_chunk(Chunk::new(*b"tEXt", b"note".to_vec()));
    let bytes = writer.write().unwrap();
    // the extra chunk sits just before the 12-byte end chunk; its CRC is its last 4 bytes
    let crc_at = bytes.len() - 12 - 4;
    let mut flipped = bytes.clone();
    flipped[crc_at] ^= 0x10;
    let image = PngReader::read(&flipped).unwrap();
    assert_eq!(image.pixels().unwrap(), pixels);
    assert_eq!(image.non_data_chunks().len(), 0);
}

#[test]
fn structural_errors() {
    let pixels = sample_pixels();
    let bytes = PngWriter::new(3, 2, &pixels).unwrap().write().unwrap();
    // truncated stream: the last chunk runs past the end
    assert!(matches!(PngReader::read(&bytes[..bytes.len() - 2]), Err(PNGError::MalformedChunk)));
    // no end chunk
    assert!(matches!(PngReader::read(&bytes[..bytes.len() - 12]), Err(PNGError::MissingIend)));
    // header not first
    let s = stream(&[Chunk::new(*b"IEND", Vec::new())]);
    assert!(matches!(PngReader::read(&s), Err(PNGError::MalformedHeader)));
    // header of the wrong size
    let s = stream(&[Chunk::new(*b"IHDR", vec![0; 12]), Chunk::new(*b"IEND", Vec::new())]);
    assert!(matches!(PngReader::read(&s), Err(PNGError::MalformedHeader)));
    // illegal bit depth for truecolor
    let s = stream(&[Chunk::new(*b"IHDR", header_bytes(1, 1, 12, 2)), Chunk::new(*b"IEND", Vec::new())]);
    assert!(matches!(PngReader::read(&s), Err(PNGError::InvalidBitDepth)));
    // palette not made of whole triples
    let s = stream(&[
        Chunk::new(*b"IHDR", header_bytes(1, 1, 8, 3)),
        Chunk::new(*b"PLTE", vec![1, 2, 3, 4]),
        Chunk::new(*b"IEND", Vec::new()),
    ]);
    assert!(matches!(PngReader::read(&s), Err(PNGError::InvalidPalette)));
    // corrupt compressed data with a valid CRC
    let s = stream(&[
        Chunk::new(*b"IHDR", header_bytes(1, 1, 8, 0)),
        Chunk::new(*b"IDAT", vec![1, 2, 3, 4, 5]),
        Chunk::new(*b"IEND", Vec::new()),
    ]);
    let image = PngReader::read(&s).unwrap();
    assert!(matches!(image.pixels(), Err(PNGError::DecompressionFailure)));
    assert!(matches!(image.image_data(), Err(PNGError::DecompressionFailure)));
}

#[test]
fn paeth_correctness() {
    assert_eq!(paeth_predictor(0, 0, 0), 0);
    // p = 15: |p-a| = 5, |p-b| = 5, |p-c| = 0, so c wins
    assert_eq!(paeth_predictor(10, 20, 15), 15);
    // p = 255: a is exact
    assert_eq!(paeth_predictor(255, 0, 0), 255);
    // p = 10: pa = 10, pb = 0, pc = 10: b
    assert_eq!(paeth_predictor(0, 10, 0), 10);
    // ties go to a first
    assert_eq!(paeth_predictor(5, 5, 5), 5);
    // p = 5: pa = 2, pb = 2, pc = 0: c
    assert_eq!(paeth_predictor(3, 7, 5), 5);
    // p = 9: pa = 1, pb = 5, pc = 6: a
    assert_eq!(paeth_predictor(8, 4, 3), 8);
}

#[test]
fn bit_depth_unpacking() {
    let pixels = gray_scale_one_bit(&[0b1011_0010], 8);
    let grays: Vec<u8> = pixels.iter().map(|c| c.r()).collect();
    assert_eq!(grays, vec![255, 0, 255, 255, 0, 0, 255, 0]);
    assert!(pixels.iter().all(|c| c.alpha() == 255 && c.g() == c.r() && c.b() == c.r()));
    let two = gray_scale_two_bits(&[0b00_01_10_11], 4);
    let grays: Vec<u8> = two.iter().map(|c| c.r()).collect();
    assert_eq!(grays, vec![0, 85, 170, 255]);
    // only `width` samples are taken from a row
    assert_eq!(gray_scale_one_bit(&[0xff], 3).len(), 3);
    // 16-bit samples are rounded to 8 bits
    let g = gray_scale_sixteen_bits(&[0x80, 0x80, 0xff, 0xff, 0x00, 0x81], 3);
    assert_eq!(g.iter().map(|c| c.r()).collect::<Vec<u8>>(), vec![128, 255, 1]);
    let c = rgba_sixteen_bits(&[0xff, 0xff, 0, 0, 0x12, 0x34, 0x80, 0x00], 1);
    assert_eq!(c, vec![Color::rgba(255, 0, 18, 128)]);
}

#[test]
fn palette_bounds_safety() {
    let mut data = Vec::new();
    for i in 0..10u8 {
        data.extend_from_slice(&[i, i + 1, i + 2]);
    }
    let plte = PLTE::from_data(&data).unwrap();
    assert_eq!(plte.len(), 256);
    let pixels = palette_index_eight_bits(&[200, 3], 2, &plte);
    assert_eq!(pixels, vec![Color::rgba(0, 0, 0, 255), Color::rgba(3, 4, 5, 255)]);
    assert!(matches!(PLTE::from_data(&[1, 2]), Err(PNGError::InvalidPalette)));
    assert!(matches!(PLTE::from_data(&vec![0; 771]), Err(PNGError::InvalidPalette)));
}

fn filter_round_trip_for(filter: FilterType) {
    let row = vec![10u8, 200, 3, 255, 0, 77, 128, 9, 250, 14];
    let prev = vec![5u8, 250, 100, 0, 33, 66, 99, 255, 1, 2];
    for bpp in 1..4usize {
        let filtered = apply_filter(&row, &prev, filter, bpp);
        let mut restored = filtered.clone();
        remove_filter(&mut restored, &prev, filter, bpp);
        assert_eq!(restored, row);
    }
}

#[test]
fn filter_round_trip_per_row() {
    filter_round_trip_for(FilterType::NoFilter);
    filter_round_trip_for(FilterType::Sub);
    filter_round_trip_for(FilterType::Up);
    filter_round_trip_for(FilterType::Average);
    filter_round_trip_for(FilterType::Paeth);
}

#[test]
fn filter_values() {
    let mut row = vec![1u8, 2, 3, 4];
    remove_filter(&mut row, &[0, 0, 0, 0], FilterType::Sub, 1);
    assert_eq!(row, vec![1, 3, 6, 10]);
    let mut row = vec![1u8, 2, 3, 4];
    remove_filter(&mut row, &[10, 20, 30, 250], FilterType::Up, 1);
    assert_eq!(row, vec![11, 22, 33, 254]);
    // Average: the left neighbour counts only past the first bpp + 1 bytes
    let mut row = vec![0u8, 0, 0, 0];
    remove_filter(&mut row, &[2, 4, 6, 8], FilterType::Average, 1);
    assert_eq!(row, vec![1, 2, 4, 6]);
    let mut row = vec![7u8, 8];
    remove_filter(&mut row, &[1, 1], FilterType::Unsupported, 1);
    assert_eq!(row, vec![7, 8]);
    assert_eq!(FilterType::from_byte(3), FilterType::Average);
    assert_eq!(FilterType::from_byte(9), FilterType::Unsupported);
    assert_eq!(FilterType::Paeth.tag(), 4);
}

#[test]
fn crc_known_values() {
    assert_eq!(crc(b"IEND"), [0xae, 0x42, 0x60, 0x82]);
    assert_eq!(crc(b"123456789"), 0xcbf4_3926u32.to_be_bytes());
    assert_eq!(update_crc(0xffff_ffff, &[]), 0xffff_ffff);
    assert_eq!(be_bytes_to_u32(&[1, 2, 3, 4]), 0x0102_0304);
    assert_eq!(u32_to_be_bytes(0xdead_beef), [0xde, 0xad, 0xbe, 0xef]);
}

#[test]
fn chunk_parsing() {
    let c = Chunk::new(*b"abcd", vec![9, 8, 7]);
    assert_eq!(c.length(), 3);
    assert!(c.crc_okay());
    let mut bytes = Vec::new();
    c.write_all(&mut bytes);
    assert_eq!(bytes.len(), 15);
    let mut decoder = ChunkDecoder::from_data(&bytes);
    let parsed = decoder.next_chunk().unwrap().unwrap();
    assert_eq!(parsed.c_type(), *b"abcd");
    assert_eq!(parsed.data(), &[9, 8, 7]);
    assert_eq!(parsed.crc(), c.crc());
    assert!(decoder.next_chunk().unwrap().is_none());
    let mut decoder = ChunkDecoder::from_data(&bytes);
    assert_eq!(decoder.extract_bytes(4).unwrap(), &[0, 0, 0, 3]);
    assert!(decoder.extract_bytes(100).is_none());
    assert!(matches!(split_into_chunks(&bytes[..14]), Err(PNGError::MalformedChunk)));
    assert_eq!(split_into_chunks(&bytes).unwrap().len(), 1);
}

#[test]
fn header_parsing() {
    let h = parse_ihdr_data(&header_bytes(640, 480, 8, 6)).unwrap();
    assert_eq!(h, PngHeader { width: 640, height: 480, bit_depth: 8, color_type: 6, compression: 0, filter: 0, interlace: 0 });
    assert_eq!(h.bytes_per_pixel(), 4);
    assert_eq!(h.row_length(), 2560);
    let h1 = parse_ihdr_data(&header_bytes(3, 1, 1, 0)).unwrap();
    assert_eq!(h1.bytes_per_pixel(), 1);
    assert_eq!(h1.row_length(), 1);
    assert!(matches!(parse_ihdr_data(&header_bytes(0, 1, 8, 0)), Err(PNGError::MalformedHeader)));
    assert!(matches!(parse_ihdr_data(&header_bytes(1, 1, 12, 2)), Err(PNGError::InvalidBitDepth)));
    assert!(valid_bit_depth(0, 16));
    assert!(!valid_bit_depth(2, 12));
    assert!(!valid_bit_depth(3, 16));
    let chunk = h.to_chunk();
    assert!(chunk.crc_okay());
    assert_eq!(chunk.data(), &header_bytes(640, 480, 8, 6)[..]);
}

#[test]
fn ancillary_tables() {
    let g = gAMA::from_chunk(&Chunk::new(*b"gAMA", vec![0, 0, 0xb1, 0x8f])).unwrap();
    assert_eq!(g.gamma, 45455);
    assert!(matches!(gAMA::from_chunk(&Chunk::new(*b"gAMA", vec![0, 0])), Err(PNGError::MalformedChunk)));
    let t = tRNS::from_data(&[0, 128]);
    assert_eq!(t.alpha(0), 0);
    assert_eq!(t.alpha(1), 128);
    assert_eq!(t.alpha(2), 255);
}

#[test]
fn decode_indexed_and_gray_images() {
    // 2-bit indexed, 3 pixels wide, 2 rows: indices 0 1 2 / 3 0 0
    let raw = [0u8, 0b00_01_10_00, 0, 0b11_00_00_00];
    let plte = Chunk::new(*b"PLTE", vec![255, 0, 0, 0, 255, 0, 0, 0, 255]);
    let trns = Chunk::new(*b"tRNS", vec![10]);
    let bytes = image_stream(3, 2, 2, 3, &raw, vec![plte, trns]);
    let image = PngReader::read(&bytes).unwrap();
    let px = image.pixels().unwrap();
    assert_eq!(px, vec![
        Color::rgb(255, 0, 0), Color::rgb(0, 255, 0), Color::rgb(0, 0, 255),
        Color::rgb(0, 0, 0), Color::rgb(255, 0, 0), Color::rgb(255, 0, 0),
    ]);
    assert_eq!(image.palette_alpha(0), 10);
    assert_eq!(image.palette_alpha(1), 255);
    // the transparency chunk is also kept among the non-data chunks
    assert_eq!(image.non_data_chunks().len(), 1);
    assert_eq!(image.non_data_chunks()[0].c_type(), *b"tRNS");
    // 8-bit gray with Sub and Up filters
    let raw = [1u8, 10, 5, 2, 1, 1];
    let bytes = image_stream(2, 2, 8, 0, &raw, Vec::new());
    let image = PngReader::read(&bytes).unwrap();
    assert_eq!(image.image_data().unwrap(), vec![10, 15, 11, 16]);
    let grays: Vec<u8> = image.pixels().unwrap().iter().map(|c| c.r()).collect();
    assert_eq!(grays, vec![10, 15, 11, 16]);
    // an indexed image without a palette reads as black
    let bytes = image_stream(2, 1, 8, 3, &[0, 4, 200], Vec::new());
    assert_eq!(PngReader::read(&bytes).unwrap().pixels().unwrap(), vec![Color::rgb(0, 0, 0); 2]);
}

#[test]
fn row_decoder_and_unpack_row() {
    let data = [0u8, 1, 2, 2, 1, 1, 9];
    let mut rows = RowDecoder::new(&data, 2, 1);
    assert_eq!(rows.next_row().unwrap(), vec![1, 2]);
    assert_eq!(rows.next_row().unwrap(), vec![2, 3]);
    assert!(rows.next_row().is_none());
    let h = PngHeader { width: 2, height: 1, bit_depth: 8, color_type: 4, compression: 0, filter: 0, interlace: 0 };
    let plte = PLTE::empty();
    assert_eq!(unpack_row(&[7, 8, 9, 10], &h, &plte), vec![Color::rgba(7, 7, 7, 8), Color::rgba(9, 9, 9, 10)]);
    assert_eq!(decompress_zlib(&miniz_oxide::deflate::compress_to_vec_zlib(&[4, 5, 6], 1)).unwrap(), vec![4, 5, 6]);
}

#[test]
fn header_error_order() {
    // an illegal pair wins over a zero dimension
    assert!(matches!(parse_ihdr_data(&header_bytes(0, 1, 12, 2)), Err(PNGError::InvalidBitDepth)));
    assert!(matches!(parse_ihdr_data(&header_bytes(1, 0, 3, 6)), Err(PNGError::InvalidBitDepth)));
    let s = stream(&[Chunk::new(*b"IHDR", header_bytes(0, 4, 12, 2)), Chunk::new(*b"IEND", Vec::new())]);
    assert!(matches!(PngReader::read(&s), Err(PNGError::InvalidBitDepth)));
}

#[test]
fn pixel_count_capped_at_height() {
    // three scanlines of data for an image two rows high
    let raw = [0u8, 1, 2, 0, 3, 4, 0, 5, 6];
    let bytes = image_stream(2, 2, 8, 0, &raw, Vec::new());
    let image = PngReader::read(&bytes).unwrap();
    let grays: Vec<u8> = image.pixels().unwrap().iter().map(|c| c.r()).collect();
    assert_eq!(grays, vec![1, 2, 3, 4]);
    assert_eq!(image.image_data().unwrap(), vec![1, 2, 3, 4]);
}

#[test]
fn unknown_ancillary_chunk_with_bad_crc_is_skipped() {
    let pixels = sample_pixels();
    let mut writer = PngWriter::new(3, 2, &pixels).unwrap();
    writer.add_chunk(Chunk::new(*b"abCd", vec![5, 6, 7]));
    let bytes = writer.write().unwrap();
    let image = PngReader::read(&bytes).unwrap();
    assert_eq!(image.non_data_chunks()[0].c_type(), *b"abCd");
    let crc_at = bytes.len() - 12 - 4;
    for bit in 0..8 {
        let mut flipped = bytes.clone();
        flipped[crc_at + 3] ^= 1 << bit;
        let image = PngReader::read(&flipped).unwrap();
        assert_eq!(image.width(), 3);
        assert_eq!(image.height(), 2);
        assert_eq!(image.pixels().unwrap(), pixels);
    }
}

#[test]
fn shared_crc_table() {
    let table = CrcTable::new();
    assert_eq!(table.checksum(b"IEND"), [0xae, 0x42, 0x60, 0x82]);
    assert_eq!(table.update(0xffff_ffff, b"123456789") ^ 0xffff_ffff, 0xcbf4_3926);
    let c = Chunk::new_with(*b"abcd", vec![1], &table);
    assert!(c.crc_okay_with(&table));
    assert_eq!(c.crc(), Chunk::new(*b"abcd", vec![1]).crc());
}
