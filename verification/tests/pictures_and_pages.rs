use bitmap_render::card::{
    begin_card, card_heights, BlockCardProps, CardAction, CardEvent, CardStage, CardState,
    DataReply, MetaReply,
};
use bitmap_render::layout::{layout_block, Square};
use bitmap_render::meta::BlockMeta;
use bitmap_render::picture::{block_picture, encode_png, paint_squares, Color, PixelSquare};
use bitmap_render::response::{
    binary_response, brotli_compress, compressed_response, picture_response,
};

const ORANGE: Color = Color { red: 250, green: 120, blue: 10 };

fn decompress(bytes: &[u8]) -> Vec<u8> {
    let mut plain: Vec<u8> = vec![];
    let mut input = bytes;
    brotli::BrotliDecompress(&mut input, &mut plain).unwrap();
    plain
}

fn header<'a>(headers: &'a [(String, String)], name: &str) -> Option<&'a str> {
    headers.iter().find(|(n, _)| n == name).map(|(_, value)| value.as_str())
}

fn decoded(file: &[u8]) -> image::RgbImage {
    image::load_from_memory(file).unwrap().to_rgb8()
}

#[test]
fn bitmaps_are_sent_compressed() {
    let payload: Vec<u8> = (0..4000u32).map(|i| (1 + i % 3) as u8).collect();
    let response = binary_response("00ab", &payload);
    assert_eq!(response.status, 200);
    assert_eq!(response.headers.len(), 4);
    assert_eq!(header(&response.headers, "content-type"), Some("application/octet-stream"));
    assert_eq!(
        header(&response.headers, "cache-control"),
        Some("public, max-age=31536000, immutable")
    );
    assert_eq!(header(&response.headers, "content-encoding"), Some("br"));
    assert_eq!(header(&response.headers, "x-block-hash"), Some("00ab"));
    assert!(response.body.len() < payload.len());
    assert_eq!(decompress(&response.body), payload);
    assert_eq!(decompress(&brotli_compress(&payload).unwrap()), payload);
}

#[test]
fn empty_bitmaps_are_sent_too() {
    let response = binary_response("00ab", &vec![]);
    assert_eq!(decompress(&response.body), Vec::<u8>::new());
    assert!(!response.body.is_empty());
    assert_eq!(decompress(&brotli_compress(&[]).unwrap()), Vec::<u8>::new());
}

#[test]
fn without_a_compressor_the_plain_bitmap_is_sent() {
    let response = compressed_response("00ab", &vec![1, 2], None);
    assert_eq!(response.body, vec![1, 2]);
    assert_eq!(header(&response.headers, "content-encoding"), Some("br"));
    assert_eq!(compressed_response("00ab", &vec![1, 2], Some(vec![7])).body, vec![7]);
}

#[test]
fn squares_are_painted_and_cut_off() {
    let background = Color { red: 1, green: 2, blue: 3 };
    let squares = vec![
        PixelSquare { x: 1, y: 1, side: 2 },
        PixelSquare { x: 6, y: 3, side: 9 },
        PixelSquare { x: 0, y: 4, side: 0 },
        PixelSquare { x: 0, y: 4, side: -3 },
        PixelSquare { x: 90, y: 90, side: 4 },
    ];
    let file = encode_png(&paint_squares(8, 5, background, ORANGE, &squares)).unwrap();
    let image = decoded(&file);
    assert_eq!(image.dimensions(), (8, 5));
    for (x, y, pixel) in image.enumerate_pixels() {
        let first = (1..3).contains(&x) && (1..3).contains(&y);
        let second = x >= 6 && y >= 3;
        let expected = if first || second { [250, 120, 10] } else { [1, 2, 3] };
        assert_eq!(pixel.0, expected, "{} {}", x, y);
    }
}

#[test]
fn the_order_of_squares_makes_no_difference() {
    let background = Color { red: 0, green: 0, blue: 0 };
    let a = PixelSquare { x: 0, y: 0, side: 3 };
    let b = PixelSquare { x: 2, y: 2, side: 2 };
    let one = encode_png(&paint_squares(6, 6, background, ORANGE, &vec![a, b])).unwrap();
    let other = encode_png(&paint_squares(6, 6, background, ORANGE, &vec![b, a, b])).unwrap();
    assert_eq!(one, other);
}

#[test]
fn block_pictures_have_the_preview_size() {
    let squares = vec![PixelSquare { x: 40, y: 50, side: 10 }];
    let response = block_picture(ORANGE, &squares).unwrap();
    assert_eq!(response.status, 200);
    assert_eq!(header(&response.headers, "content-type"), Some("image/png"));
    assert_eq!(header(&response.headers, "cache-control"), Some("public, max-age=86400, immutable"));
    let image = decoded(&response.body);
    assert_eq!(image.dimensions(), (1200, 630));
    assert_eq!(image.get_pixel(39, 50).0, [9, 9, 11]);
    assert_eq!(image.get_pixel(40, 50).0, [250, 120, 10]);
    assert_eq!(image.get_pixel(49, 59).0, [250, 120, 10]);
    assert_eq!(image.get_pixel(50, 59).0, [9, 9, 11]);
}

#[test]
fn pictures_that_cannot_be_encoded_are_an_error() {
    let error = picture_response(None).unwrap_err();
    assert_eq!(error.status, 500);
    assert_eq!(error.message, "failed to generate image");
    assert_eq!(picture_response(Some(vec![1])).unwrap().body, vec![1]);
}

#[test]
fn far_edges_must_be_coordinates() {
    assert!(PixelSquare { x: u32::MAX, y: 0, side: 0 }.is_in_range());
    assert!(PixelSquare { x: u32::MAX - 1, y: 0, side: 1 }.is_in_range());
    assert!(!PixelSquare { x: u32::MAX, y: 0, side: 1 }.is_in_range());
    assert!(!PixelSquare { x: 0, y: u32::MAX - 3, side: 4 }.is_in_range());
}

#[test]
fn layouts_are_written_flat() {
    let squares = vec![Square { x: 0, y: 1, r: 2 }, Square { x: -3, y: 4, r: 5 }];
    assert_eq!(layout_block(10, 12, &squares), vec![10, 12, 0, 1, 2, -3, 4, 5]);
    assert_eq!(layout_block(7, 0, &vec![]), vec![7, 0]);
}

#[test]
fn cards_ask_for_description_and_bitmap() {
    let props = BlockCardProps { height: 840000, api_base: "http://localhost:3000".to_string() };
    assert_eq!(props.meta_url(), "http://localhost:3000/api/block/840000/meta");
    assert_eq!(props.data_url(), "http://localhost:3000/api/block/840000");
    assert_eq!(props.heading(), "#840000");
    assert_eq!(card_heights(840000), vec![840000, 840001, 840002, 840003]);
    assert_eq!(card_heights(u64::MAX - 3)[3], u64::MAX);
}

#[test]
fn cards_show_what_they_know() {
    let mut card = CardState::new();
    assert_eq!(card.line(), "loading");
    card.on_meta(MetaReply::Unreadable);
    assert_eq!(card.line(), "loading");
    card.on_meta(MetaReply::Failed);
    assert_eq!(card.line(), "Failed to load meta");
    let meta = BlockMeta { id: String::new(), height: 1, timestamp: 0, size: 0, tx_count: 3050 };
    card.on_meta(MetaReply::Loaded(meta));
    assert_eq!(card.line(), "3050 tx");
}

fn description() -> BlockMeta {
    BlockMeta { id: "id".to_string(), height: 7, timestamp: 1, size: 2, tx_count: 12 }
}

#[test]
fn cards_ask_for_the_bitmap_whatever_became_of_the_description() {
    let props = BlockCardProps { height: 7, api_base: "http://s".to_string() };
    let replies = [
        (MetaReply::Failed, "Failed to load meta"),
        (MetaReply::Unreadable, "loading"),
        (MetaReply::Loaded(description()), "12 tx"),
    ];
    for (reply, line) in replies {
        let (mut card, stage, action) = begin_card(&props);
        assert_eq!((card.line(), stage), ("loading".to_string(), CardStage::Meta));
        match action {
            CardAction::AskMeta { url } => assert_eq!(url, "http://s/api/block/7/meta"),
            _ => panic!("the description comes first"),
        }
        let (stage, action) = stage.step(&mut card, &props, CardEvent::Meta(reply));
        assert_eq!(card.line(), line);
        match action {
            CardAction::AskData { url } => assert_eq!(url, "http://s/api/block/7"),
            _ => panic!("the bitmap comes second"),
        }
        let event = CardEvent::Data(DataReply::Loaded(vec![1, 4]));
        let (stage, action) = stage.step(&mut card, &props, event);
        assert_eq!((card.clone().line().as_str(), stage), (line, CardStage::Over));
        match action {
            CardAction::Draw(sizes) => assert_eq!(sizes, vec![1, 4]),
            _ => panic!("the bitmap is drawn"),
        }
    }
}

#[test]
fn cards_draw_nothing_without_a_bitmap() {
    let props = BlockCardProps { height: 7, api_base: "http://s".to_string() };
    for reply in [DataReply::Failed, DataReply::Unreadable] {
        let (mut card, stage, _) = begin_card(&props);
        let event = CardEvent::Meta(MetaReply::Loaded(description()));
        let (stage, _) = stage.step(&mut card, &props, event);
        let (stage, action) = stage.step(&mut card, &props, CardEvent::Data(reply));
        assert_eq!(stage, CardStage::Over);
        assert!(matches!(action, CardAction::Done));
        assert_eq!(card.line(), "12 tx");
    }
}
