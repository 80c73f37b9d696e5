use screen_13::pak::bitmap::{BitmapBuf, BitmapColor, BitmapFormat};
use screen_13::pak::bitmap_font::BitmapFont;
use screen_13::pak::buf::bitmap::{
    gray_pixels, guess_format, resize_extent, resize_is_nearest, rgba_format, Bitmap,
};
use screen_13::pak::buf::blob::{
    font_page_extent, font_page_names, font_page_pixels, stack_font_pages, Blob,
};
use screen_13::pak::buf::content::{CompressionType, Content, Group};
use screen_13::pak::buf::data::{Data, DataRef as BufDataRef, Id};
use screen_13::pak::buf::material::{
    color_value_bitmap, default_normal_bitmap, material_params as params_of_material, pack_params,
    params_extent,
    scalar_value_bitmap,
    ColorRef, Material, NormalRef, ScalarRef,
};
use screen_13::pak::buf::model::{append_meshlets, convert_triangle_fan_to_list, MeshRef};
use screen_13::pak::buf::scene::AssetRef;
use screen_13::pak::buf::writer::{lay_out_refs, write_refs, Writer};
use screen_13::pak::buf::{
    asset_file_kind, file_key, is_toml, parent, parse_hex_color, parse_hex_scalar, AssetFileKind,
};
use screen_13::pak::compression::{read_through, write_through, BrotliParams, Compression};
use screen_13::pak::data_ref::DataRef;
use screen_13::pak::font_bitmap::FontBitmap;
use screen_13::pak::ids;
use screen_13::pak::model::IndexType;
use screen_13::pak::{AnimationId, BitmapFontId, BitmapId, BlobId, MaterialId, MaterialInfo};
use std::io::Read;

fn parts(path: &[&str]) -> Vec<String> {
    path.iter().map(|part| part.to_string()).collect()
}

#[test]
fn hex_colors() {
    assert_eq!(parse_hex_color("#abc"), Some([0xaa, 0xbb, 0xcc, 0xff]));
    assert_eq!(parse_hex_color("#abcd"), Some([0xaa, 0xbb, 0xcc, 0xdd]));
    assert_eq!(parse_hex_color("#102030"), Some([0x10, 0x20, 0x30, 0xff]));
    assert_eq!(parse_hex_color("#10203040"), Some([0x10, 0x20, 0x30, 0x40]));
    assert_eq!(parse_hex_color("#FFfF00"), Some([0xff, 0xff, 0x00, 0xff]));
    assert_eq!(parse_hex_color("#12"), None);
    assert_eq!(parse_hex_color("#123456789"), None);
    assert_eq!(parse_hex_color(""), None);
}

#[test]
fn hex_scalars() {
    assert_eq!(parse_hex_scalar("#f"), Some(0xff));
    assert_eq!(parse_hex_scalar("#80"), Some(0x80));
    assert_eq!(parse_hex_scalar("#+8"), Some(0x08));
    assert_eq!(parse_hex_scalar("#"), None);
    assert_eq!(parse_hex_scalar("#123"), None);
}

#[test]
fn color_refs_from_text() {
    assert_eq!(ColorRef::from_text("#fff"), ColorRef::Value([255, 255, 255, 255]));
    assert_eq!(ColorRef::from_text("#00000080"), ColorRef::Value([0, 0, 0, 0x80]));
    assert_eq!(ColorRef::from_text("albedo.png"), ColorRef::Path(String::from("albedo.png")));
    assert_eq!(ColorRef::from_text("#1"), ColorRef::Path(String::from("#1")));
    assert_eq!(ColorRef::white(), ColorRef::Value([255; 4]));
    assert_eq!(ColorRef::default(), ColorRef::Value([255; 4]));
    assert_eq!(NormalRef::from_text("n.png"), NormalRef::Path(String::from("n.png")));
    assert_eq!(ScalarRef::from_text("#4"), ScalarRef::Value(0x44));
    assert_eq!(ScalarRef::from_text("#c0"), ScalarRef::Value(0xc0));
    assert_eq!(ScalarRef::from_text("rough.png"), ScalarRef::Path(String::from("rough.png")));
}

#[test]
fn materials() {
    let material = Material::new(String::from("a.png"));
    assert_eq!(material.color, ColorRef::Path(String::from("a.png")));
    assert_eq!(material.metal, None);
    let material = Material::default();
    assert_eq!(material.color, ColorRef::Value([255; 4]));
    assert_eq!(material.normal, None);
    assert_eq!(material.double_sided, None);
}

#[test]
fn material_value_bitmaps() {
    let color = color_value_bitmap([1, 2, 3, 4]);
    assert_eq!(color.pixels(), &[1, 2, 3, 4]);
    assert_eq!(color.format(), BitmapFormat::Rgba);
    assert_eq!(color.width(), 1);
    let normal = default_normal_bitmap();
    assert_eq!(normal.format(), BitmapFormat::Rgb);
    assert_eq!(normal.color(), BitmapColor::Linear);
    assert_eq!(normal.pixels().len(), 3);
    let scalar = scalar_value_bitmap(Some(9));
    assert_eq!(scalar.pixels(), &[9]);
    assert_eq!(scalar.format(), BitmapFormat::R);
}

#[test]
fn material_params() {
    assert_eq!(params_extent((2, 1), (1, 4), (3, 2)), (3, 4));
    let packed = pack_params(2, 1, &[1, 2], &[3, 4], None);
    assert_eq!(packed.format(), BitmapFormat::Rg);
    assert_eq!(packed.pixels(), &[1, 3, 2, 4]);
    let packed = pack_params(2, 1, &[1, 2], &[3, 4], Some(&[5, 6]));
    assert_eq!(packed.format(), BitmapFormat::Rgb);
    assert_eq!(packed.pixels(), &[1, 3, 5, 2, 4, 6]);
    assert_eq!(packed.color(), BitmapColor::Linear);
}

#[test]
fn paths_and_keys() {
    assert!(is_toml(&parts(&["a", "b.toml"])));
    assert!(!is_toml(&parts(&["a", "b.png"])));
    assert!(!is_toml(&parts(&["a", "toml"])));
    assert!(!is_toml(&[]));
    assert_eq!(parent(&parts(&["a", "b", "c.png"])), parts(&["a", "b"]));
    assert_eq!(parent(&[]), Vec::<String>::new());
    let dir = parts(&["home", "project"]);
    assert_eq!(file_key(&dir, &parts(&["home", "project", "art", "sky.toml"])), "art/sky");
    assert_eq!(file_key(&dir, &parts(&["home", "project", "a.png"])), "a.png");
    assert_eq!(file_key(&dir, &parts(&["elsewhere", "b.png"])), "elsewhere/b.png");
}

#[test]
fn bitmap_buf_accessors() {
    // Two pixels wide, two rows, three channels.
    let buf = BitmapBuf::new(BitmapColor::Srgb, BitmapFormat::Rgb, 2, vec![1, 2, 3, 4, 5, 6, 7, 8, 9, 10, 11, 12]);
    assert_eq!(buf.width(), 2);
    assert_eq!(buf.height(), 2);
    assert_eq!(buf.extent(), (2, 2));
    assert_eq!(buf.stride(), 6);
    assert_eq!(buf.pixel(1, 1), &[10, 11, 12]);
    assert_eq!(buf.pixel(0, 1), &[7, 8, 9]);
    assert_eq!(buf.color(), BitmapColor::Srgb);
    assert_eq!(BitmapFormat::Rg.byte_len(), 2);
    assert_eq!(buf.pixels_as_format(BitmapFormat::Rg), vec![1, 2, 0, 0, 4, 5, 0, 0, 7, 8, 0, 0, 10, 11, 0, 0]);
    // A trailing partial pixel is converted too.
    let partial = BitmapBuf::new(BitmapColor::Linear, BitmapFormat::Rgb, 1, vec![1, 2, 3, 4]);
    assert_eq!(partial.pixels_as_format(BitmapFormat::R), vec![1, 0, 0, 0, 4, 0, 0, 0]);
    let gray = BitmapBuf::new(BitmapColor::Linear, BitmapFormat::R, 1, vec![9]);
    assert_eq!(gray.pixels_as_format(BitmapFormat::Rgba), vec![9, 0, 0, 0]);
}

#[test]
fn bitmap_rows_are_flipped() {
    // Two rows of one pixel: the top row is red, the bottom row is blue.
    let rgba = [255, 0, 0, 255, 0, 0, 255, 128];
    assert_eq!(Bitmap::pixels_r(1, 2, &rgba), vec![0, 255]);
    assert_eq!(Bitmap::pixels_rg(1, 2, &rgba), vec![0, 0, 255, 0]);
    assert_eq!(Bitmap::pixels_rgb(1, 2, &rgba), vec![0, 0, 255, 255, 0, 0]);
    assert_eq!(Bitmap::pixels_rgba(1, 2, &rgba), vec![0, 0, 255, 128, 255, 0, 0, 255]);
    assert_eq!(rgba_format(&rgba), BitmapFormat::Rgba);
    assert_eq!(rgba_format(&[1, 2, 3, 255]), BitmapFormat::Rgb);
}

#[test]
fn bitmap_settings() {
    let bitmap = Bitmap::new(String::from("img.png"));
    assert_eq!(bitmap.color(), BitmapColor::Srgb);
    assert_eq!(bitmap.format(), BitmapFormat::Rgba);
    assert_eq!(bitmap.resize(), None);
    assert_eq!(bitmap.src(), "img.png");
    let bitmap = bitmap.with_color(BitmapColor::Linear).with_format(BitmapFormat::R);
    assert_eq!(bitmap.color(), BitmapColor::Linear);
    assert_eq!(bitmap.format(), BitmapFormat::R);
    let bitmap = Bitmap::from_parts(None, Some(BitmapFormat::Rg), Some(64), String::from("x.png"));
    assert_eq!(bitmap.resize(), Some(64));
    assert_eq!(resize_extent(200, 100, 64), (64, 32));
    assert_eq!(resize_extent(100, 300, 60), (20, 60));
    assert!(resize_is_nearest(1, 1));
    assert!(!resize_is_nearest(1, 2));
}

#[test]
fn font_pages() {
    let pixels = [255, 7, 7, 0, 255, 7, 1, 2, 3];
    assert_eq!(font_page_pixels(3, &pixels), vec![255, 0, 0, 0, 255, 0, 0, 0, 0]);
    // A partial row is dropped.
    assert_eq!(font_page_pixels(2, &pixels), vec![255, 0, 0, 0, 255, 0]);
    assert_eq!(font_page_extent(&[(4, 48), (4, 48)]), Some((4, 4)));
    assert_eq!(font_page_extent(&[(4, 48), (4, 36)]), None);
    assert_eq!(font_page_extent(&[(4, 48), (2, 48)]), None);
    assert_eq!(font_page_extent(&[]), None);
    let page = stack_font_pages(1, vec![vec![1, 2, 3], vec![4, 5, 6]]);
    assert_eq!(page.pixels(), &[1, 2, 3, 4, 5, 6]);
    assert_eq!(page.height(), 2);
    assert_eq!(page.format(), BitmapFormat::Rgb);
    assert_eq!(page.color(), BitmapColor::Linear);
    let blob = Blob::new(String::from("font.fnt"));
    assert_eq!(blob.src(), "font.fnt");
}

#[test]
fn fonts_keep_their_parts() {
    let page = BitmapBuf::new(BitmapColor::Linear, BitmapFormat::R, 1, vec![7]);
    let font = BitmapFont::new(String::from("info"), page);
    assert_eq!(font.def(), "info");
    assert_eq!(font.page().pixels(), &[7]);
    let font = FontBitmap::new(vec![1, 2], vec![]);
    assert_eq!(font.def(), &[1, 2]);
    assert!(font.pages().is_empty());
}

#[test]
fn content_groups() {
    let group = Group::new(vec![String::from("**/*.toml")], None);
    assert!(group.enabled());
    assert_eq!(group.asset_globs(), &[String::from("**/*.toml")]);
    let off = Group::new(vec![], Some(false));
    assert!(!off.enabled());
    let content = Content::new(Some(CompressionType::Snap), None, None, None, vec![group, off]);
    assert_eq!(content.groups().len(), 2);
}

#[test]
fn mesh_refs() {
    let mesh = MeshRef::new(String::from("body"), Some(String::from("hero")));
    assert_eq!(mesh.name(), "body");
    assert_eq!(mesh.rename(), Some("hero"));
    let blank = MeshRef::new(String::from("body"), Some(String::from("  ")));
    assert_eq!(blank.rename(), None);
}

#[test]
fn ids_convert_by_kind() {
    let id = ids::Id::Bitmap(ids::BitmapId(3));
    assert_eq!(id.as_bitmap(), Some(ids::BitmapId(3)));
    assert_eq!(id.as_blob(), None);
    assert_eq!(ids::Id::Model(ids::ModelId(1)).as_model(), Some(ids::ModelId(1)));
    assert_eq!(ids::Id::Scene(ids::SceneId(2)).as_scene(), Some(ids::SceneId(2)));
    assert_eq!(ids::Id::Text(ids::TextId(4)).as_text(), Some(ids::TextId(4)));
    assert_eq!(ids::Id::Animation(ids::AnimationId(0)).as_material(), None);
    let id = Id::Blob(BlobId(70000));
    assert_eq!(id.as_blob(), Some(BlobId(70000)));
    assert_eq!(id.as_bitmap(), None);
    assert_eq!(Id::Animation(AnimationId(0)).as_animation(), Some(AnimationId(0)));
    let _ = IndexType::U16;
    let _: AssetRef<u8> = AssetRef::Path(String::from("m.gltf"));
}

#[test]
fn data_refs() {
    let data: DataRef<u8> = DataRef::Data(4);
    assert!(data.is_data());
    assert_eq!(*data.data(), 4);
    let stored: DataRef<u8> = DataRef::Ref(10..25);
    assert!(!stored.is_data());
    assert_eq!(stored.pos_len(), (10, 15));
    let buf: BufDataRef<u8> = BufDataRef::Ref(3..5);
    assert_eq!(buf.pos_len(), Some((3, 2)));
    assert_eq!(buf.as_data(), None);
    let buf: BufDataRef<u8> = BufDataRef::Data(1);
    assert_eq!(buf.pos_len(), None);
}

#[test]
fn writer_stores_assets_under_keys() {
    let mut writer = Writer::new();
    assert_eq!(writer.compression(), None);
    let blob = writer.push_blob(vec![1, 2, 3], Some(String::from("data/blob")));
    let other = writer.push_blob(vec![4], None);
    assert_eq!(blob, BlobId(0));
    assert_eq!(other, BlobId(1));
    let info = MaterialInfo { color: BitmapId(0), emissive: None, normal: BitmapId(1), params: BitmapId(2) };
    let material = writer.push_material(info, Some(String::from("mat")));
    assert_eq!(material, MaterialId(0));
    let font = writer.push_bitmap_font(
        BitmapFont::new(String::from("def"), BitmapBuf::new(BitmapColor::Linear, BitmapFormat::R, 1, vec![0])),
        Some(String::from("font")),
    );
    assert_eq!(font, BitmapFontId(0));
    let data = writer.data();
    assert_eq!(data.blob_id("data/blob"), Some(BlobId(0)));
    assert_eq!(data.bitmap_id("data/blob"), None);
    assert_eq!(data.material_id("mat"), Some(MaterialId(0)));
    assert_eq!(data.bitmap_font_id("font"), Some(BitmapFontId(0)));
    assert_eq!(data.id("missing"), None);
    assert_eq!(data.read_material(MaterialId(0)), Some(info));
    assert_eq!(data.read_material(MaterialId(1)), None);
    assert_eq!(data.keys(), &[String::from("data/blob"), String::from("mat"), String::from("font")]);
    assert_eq!(data.blobs().len(), 2);
    writer.with_compression(Compression::Snap);
    assert_eq!(writer.compression(), Some(Compression::Snap));
    writer.with_compression_is(None);
    assert_eq!(writer.compression(), None);
}

#[test]
fn data_with_contents_and_places() {
    let mut data = Data::with_contents(
        vec![],
        vec![BufDataRef::Ref(8..20)],
        vec![],
        vec![],
        vec![BufDataRef::Data(vec![1])],
        vec![],
        vec![],
    );
    data.insert_id(String::from("anim"), Id::Animation(AnimationId(0)));
    assert_eq!(data.animation_id("anim"), Some(AnimationId(0)));
    assert_eq!(data.animation_pos_len(AnimationId(0)), Some((8, 12)));
    assert_eq!(data.blob_pos_len(BlobId(0)), None);
    let empty = Data::new();
    assert!(empty.keys().is_empty());
}

#[test]
fn chunks_are_laid_out_in_order() {
    let (bytes, refs) = lay_out_refs(4, vec![vec![1, 2], vec![3], vec![]]).unwrap();
    assert_eq!(bytes, vec![1, 2, 3]);
    assert_eq!(refs, vec![4..6, 6..7, 7..7]);
    assert_eq!(lay_out_refs(u64::MAX, vec![vec![1]]), None);
    // Positions beyond 32 bits are truncated as the file format stores them.
    let (_, refs) = lay_out_refs(0x1_0000_0001, vec![vec![0]]).unwrap();
    assert_eq!(refs, vec![1..2]);
}

#[test]
fn uncompressed_refs_keep_their_bytes() {
    let (bytes, refs) = write_refs(None, 10, &vec![vec![9], vec![8, 7]]).unwrap();
    assert_eq!(bytes, vec![9, 8, 7]);
    assert_eq!(refs, vec![10..11, 11..13]);
    assert_eq!(write_through(None, &[1, 2, 3]), Some(vec![1, 2, 3]));
    assert_eq!(read_through(None, &[4, 5]), Some(vec![4, 5]));
}

#[test]
fn snappy_round_trip() {
    let data: Vec<u8> = (0..200u32).map(|i| (i % 7) as u8).collect();
    let written = write_through(Some(Compression::Snap), &data).unwrap();
    assert_ne!(written, data);
    assert_eq!(read_through(Some(Compression::Snap), &written), Some(data.clone()));
    // Data which is not a snappy frame is refused.
    assert_eq!(read_through(Some(Compression::Snap), &[1, 2, 3, 4, 5]), None);
    let (bytes, refs) = write_refs(Some(Compression::Snap), 0, &vec![data.clone(), vec![1]]).unwrap();
    assert_eq!(refs[0].start, 0);
    assert_eq!(refs[0].end as usize, written.len());
    assert_eq!(&bytes[..written.len()], &written[..]);
    assert_eq!(refs[1].start, refs[0].end);
    assert_eq!(refs[1].end as usize, bytes.len());
}

#[test]
fn brotli_writes_a_decodable_stream() {
    let data: Vec<u8> = b"the quick brown fox jumps over the lazy dog, again and again".repeat(8);
    let params = BrotliParams::default();
    assert_eq!(params, BrotliParams { buffer_size: 4096, quality: 8, window_size: 22 });
    assert_eq!(Compression::default(), Compression::Brotli(params));
    let written = write_through(Some(Compression::Brotli(params)), &data).unwrap();
    assert!(written.len() < data.len());
    let mut decoded = Vec::new();
    brotli::Decompressor::new(written.as_slice(), 4096).read_to_end(&mut decoded).unwrap();
    assert_eq!(decoded, data);
    // The reading side of a Brotli compression runs the compressing reader.
    let read = read_through(Some(Compression::Brotli(params)), &data).unwrap();
    let mut decoded = Vec::new();
    brotli::Decompressor::new(read.as_slice(), 4096).read_to_end(&mut decoded).unwrap();
    assert_eq!(decoded, data);
}

#[test]
fn triangle_fans_become_lists() {
    let mut indices = vec![1, 2, 3, 4, 5, 6];
    convert_triangle_fan_to_list(&mut indices);
    assert_eq!(indices, vec![1, 2, 3, 0, 4, 5, 0, 6]);
    let mut indices = vec![1, 2, 3, 4];
    convert_triangle_fan_to_list(&mut indices);
    assert_eq!(indices, vec![1, 2, 3, 0, 4]);
    let mut indices = vec![7, 8];
    convert_triangle_fan_to_list(&mut indices);
    assert_eq!(indices, vec![7, 8]);
    let mut indices: Vec<u32> = vec![];
    convert_triangle_fan_to_list(&mut indices);
    assert!(indices.is_empty());
}

#[test]
fn meshlet_indices_are_appended_as_bytes() {
    let mut index_buf = vec![9];
    let mut triangles = [[0u8; 3]; 126];
    triangles[0] = [1, 2, 3];
    triangles[125] = [4, 5, 6];
    append_meshlets(&mut index_buf, &[(triangles, 2), ([[7; 3]; 126], 1)]);
    assert_eq!(index_buf.len(), 1 + 2 * 378);
    assert_eq!(&index_buf[..4], &[9, 1, 2, 3]);
    assert_eq!(&index_buf[376..379], &[4, 5, 6]);
    assert_eq!(&index_buf[379..382], &[7, 7, 7]);
}

fn png_bytes(width: u32, height: u32, rgba: Vec<u8>) -> Vec<u8> {
    let image = image::RgbaImage::from_raw(width, height, rgba).unwrap();
    let mut bytes = std::io::Cursor::new(Vec::new());
    image::DynamicImage::ImageRgba8(image)
        .write_to(&mut bytes, image::ImageOutputFormat::Png)
        .unwrap();
    bytes.into_inner()
}

#[test]
fn image_files_are_read_bottom_row_first() {
    let bytes = png_bytes(1, 2, vec![1, 2, 3, 4, 5, 6, 7, 8]);
    assert_eq!(Bitmap::read_pixels(&bytes, "png", BitmapFormat::Rgba, None), Some((1, vec![5, 6, 7, 8, 1, 2, 3, 4])));
    assert_eq!(Bitmap::read_pixels(&bytes, "png", BitmapFormat::Rg, None), Some((1, vec![5, 6, 1, 2])));
    assert_eq!(Bitmap::read_pixels(&bytes, "png", BitmapFormat::R, None), Some((1, vec![5, 1])));
}

#[test]
fn image_files_that_are_no_images_give_nothing() {
    assert_eq!(Bitmap::read_pixels(&[1, 2, 3, 4], "png", BitmapFormat::Rgb, None), None);
}

#[test]
fn a_single_pixel_image_is_resized_by_repeating_it() {
    let bytes = png_bytes(1, 1, vec![9, 8, 7, 255]);
    let (width, pixels) = Bitmap::read_pixels(&bytes, "png", BitmapFormat::Rgb, Some(3)).unwrap();
    assert_eq!(width, 3);
    assert_eq!(pixels, [9, 8, 7].repeat(9));
}

#[test]
fn resizing_keeps_the_aspect_ratio() {
    let bytes = png_bytes(4, 2, [10, 20, 30, 255].repeat(8));
    let (width, pixels) = Bitmap::read_pixels(&bytes, "png", BitmapFormat::Rgba, Some(2)).unwrap();
    assert_eq!(width, 2);
    assert_eq!(pixels.len(), 2 * 1 * 4);
}

#[test]
fn gray_pixels_keep_or_fill_their_size() {
    assert_eq!(gray_pixels(2, 1, &[3, 4], 2, 1), vec![3, 4]);
    assert_eq!(gray_pixels(1, 1, &[7], 2, 2), vec![7, 7, 7, 7]);
}

fn path_of(parts: &[&str]) -> Vec<String> {
    parts.iter().map(|p| p.to_string()).collect()
}

#[test]
fn asset_files_are_baked_by_their_extension() {
    assert_eq!(asset_file_kind(&path_of(&["art", "hero.PNG"])), AssetFileKind::Bitmap);
    assert_eq!(asset_file_kind(&path_of(&["art", "sky.jpeg"])), AssetFileKind::Bitmap);
    assert_eq!(asset_file_kind(&path_of(&["art", "tree.Glb"])), AssetFileKind::Model);
    assert_eq!(asset_file_kind(&path_of(&["art", "rock.toml"])), AssetFileKind::Toml);
    assert_eq!(asset_file_kind(&path_of(&["art", "song.ogg"])), AssetFileKind::Blob);
    assert_eq!(asset_file_kind(&path_of(&["art", "README"])), AssetFileKind::Blob);
    assert_eq!(asset_file_kind(&path_of(&["art", ".png"])), AssetFileKind::Blob);
    assert_eq!(asset_file_kind(&path_of(&[])), AssetFileKind::Blob);
}

#[test]
fn the_extension_picks_the_image_format() {
    let bytes = png_bytes(1, 1, vec![1, 2, 3, 4]);
    assert_eq!(Bitmap::read_pixels(&bytes, "PNG", BitmapFormat::R, None), Some((1, vec![1])));
    assert_eq!(Bitmap::read_pixels(&bytes, "txt", BitmapFormat::R, None), None);
    assert_eq!(Bitmap::read_pixels(&bytes, "bmp", BitmapFormat::R, None), None);
}

#[test]
fn image_formats_are_guessed_from_the_decoded_pixels() {
    let opaque = png_bytes(2, 1, vec![1, 2, 3, 255, 4, 5, 6, 255]);
    let clear = png_bytes(2, 1, vec![1, 2, 3, 255, 4, 5, 6, 7]);
    assert_eq!(guess_format(&opaque, "png"), Some(BitmapFormat::Rgb));
    assert_eq!(guess_format(&clear, "png"), Some(BitmapFormat::Rgba));
    let gray = image::GrayImage::from_raw(1, 1, vec![9]).unwrap();
    let mut bytes = std::io::Cursor::new(Vec::new());
    image::DynamicImage::ImageLuma8(gray).write_to(&mut bytes, image::ImageOutputFormat::Png).unwrap();
    assert_eq!(guess_format(&bytes.into_inner(), "png"), Some(BitmapFormat::R));
    assert_eq!(guess_format(&[0, 1, 2], "png"), None);
}

#[test]
fn gray_pixels_read_the_first_bytes_of_wider_bitmaps() {
    assert_eq!(gray_pixels(2, 1, &[3, 4, 5, 6, 7, 8, 9, 10], 2, 1), vec![3, 4]);
}

const FONT_DEF: &str = "info face=\"x\" size=32\n\
common lineHeight=32 base=26 scaleW=256 scaleH=256 pages=2 packed=0\n\
page id=0 file=\"font_0.png\"\n\
page id=1 file=\"font_1.png\"\n\
chars count=1\n\
char id=32 x=0 y=0 width=0 height=0 xoffset=0 yoffset=0 xadvance=8 page=0 chnl=15\n";

#[test]
fn font_definitions_list_their_pages() {
    assert_eq!(font_page_names(FONT_DEF), Some(vec!["font_0.png".to_string(), "font_1.png".to_string()]));
}

#[test]
fn font_definitions_the_parser_cannot_read_give_nothing() {
    // No line follows the pages.
    assert_eq!(font_page_names("info\ncommon lineHeight=1 base=1\npage id=0 file=\"a.png\"\n"), None);
    // A page line whose first word is not `page`.
    assert_eq!(font_page_names("info\ncommon lineHeight=1 base=1\npages id=0\nchars count=0\nchar id=1\n"), None);
    // No `common` line.
    assert_eq!(font_page_names("info\npage id=0 file=\"a.png\"\n"), None);
}

#[test]
fn bitmap_descriptions_read_their_image_in_their_format() {
    let bytes = png_bytes(1, 2, vec![1, 2, 3, 4, 5, 6, 7, 8]);
    let bitmap = Bitmap::new("a.png".to_string());
    let buf = bitmap.as_bitmap_buf(&bytes, "png").unwrap();
    assert_eq!(buf.color(), BitmapColor::Srgb);
    assert_eq!(buf.format(), BitmapFormat::Rgba);
    assert_eq!(buf.width(), 1);
    assert_eq!(buf.pixels(), &[5, 6, 7, 8, 1, 2, 3, 4][..]);
    assert!(bitmap.as_bitmap_buf(&bytes, "zip").is_none());
}

#[test]
fn material_params_bring_every_bitmap_to_the_largest_size() {
    let metal = BitmapBuf::new(BitmapColor::Linear, BitmapFormat::R, 2, vec![1, 2]);
    let rough = BitmapBuf::new(BitmapColor::Linear, BitmapFormat::R, 1, vec![7]);
    let displacement = BitmapBuf::new(BitmapColor::Linear, BitmapFormat::R, 1, vec![128]);
    let params = params_of_material(&metal, &rough, &displacement, false);
    assert_eq!(params.format(), BitmapFormat::Rg);
    assert_eq!(params.width(), 2);
    assert_eq!(params.pixels(), &[1, 7, 2, 7][..]);
    let params = params_of_material(&metal, &rough, &displacement, true);
    assert_eq!(params.format(), BitmapFormat::Rgb);
    assert_eq!(params.pixels(), &[1, 7, 128, 2, 7, 128][..]);
}
