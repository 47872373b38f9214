use hd_fpv_osd_font_tool::dimensions::Dimensions;
use hd_fpv_osd_font_tool::file::IOError;
use hd_fpv_osd_font_tool::file::IOErrorKind;
use hd_fpv_osd_font_tool::image::Image;
use hd_fpv_osd_font_tool::image::ReadError as ImageReadError;
use hd_fpv_osd_font_tool::osd::tile::InvalidDimensionsError;
use hd_fpv_osd_font_tool::osd::tile::InvalidHeightError;
use hd_fpv_osd_font_tool::osd::tile::InvalidSizeError;
use hd_fpv_osd_font_tool::osd::tile::Kind;
use hd_fpv_osd_font_tool::osd::tile::LoadError;
use hd_fpv_osd_font_tool::osd::tile::Tile;

fn test_tile_file_path(tile_kind: Kind) -> String {
    format!("test_files/{}_tile.png", tile_kind.to_string().to_lowercase())
}

fn png_of(width: u32, height: u32, seed: u8) -> Vec<u8> {
    let data: Vec<u8> = (0..(width as usize * height as usize * 4))
        .map(|i| (i as u8).wrapping_mul(7).wrapping_add(seed))
        .collect();
    let mut out = std::io::Cursor::new(Vec::new());
    image::write_buffer_with_format(
        &mut out,
        &data,
        width,
        height,
        image::ColorType::Rgba8,
        image::ImageFormat::Png,
    )
    .unwrap();
    out.into_inner()
}

#[test]
fn image_size() {
    for kind in Kind::iter() {
        let tile = Tile::new(kind);
        assert_eq!(Dimensions::from(tile.dimensions()), kind.dimensions())
    }
}

#[test]
fn load() {
    for kind in Kind::iter() {
        let dimensions = kind.dimensions();
        let content = Ok(png_of(dimensions.width, dimensions.height, 1));
        let tile = Tile::load_image_file(&test_tile_file_path(kind), &content).unwrap();
        assert_eq!(tile.kind(), kind);
    }
}

#[test]
fn load_inexistent() {
    let result = Tile::load_image_file("test_files/inexistent.png", &Err(IOError::not_found()));
    match result {
        Err(LoadError::ImageReadError(ImageReadError::OpenError { file_path, error })) => {
            assert_eq!(file_path, "test_files/inexistent.png");
            assert!(error.kind() == IOErrorKind::NotFound)
        },
        Err(error) => panic!("got the wrong error: {error:?}"),
        Ok(_) => panic!("did not get an error !"),
    }
}

#[test]
fn try_from_bytes() {
    for kind in Kind::iter() {
        let bytes = vec![0; kind.raw_rgba_size_bytes()];
        let result = Tile::try_from(bytes);
        assert!(matches!(result, Ok(_)))
    }

    let bytes = vec![1, 2, 3];
    let bytes_len = bytes.len() as u64;
    let result = Tile::try_from(bytes);
    assert!(matches!(result, Err(InvalidSizeError(size)) if size == bytes_len))
}

#[test]
fn kind_names() {
    assert_eq!(Kind::SD.to_string(), "SD");
    assert_eq!(Kind::HD.to_string(), "HD");
    assert_eq!(Kind::HD.name(), "HD");
    assert_eq!(test_tile_file_path(Kind::SD), "test_files/sd_tile.png");
}

#[test]
fn kind_geometry() {
    assert_eq!(Kind::SD.dimensions(), Dimensions::new(36, 54));
    assert_eq!(Kind::HD.dimensions(), Dimensions::new(24, 36));
    assert_eq!(Kind::SD.raw_rgba_size_bytes(), 36 * 54 * 4);
    assert_eq!(Kind::HD.raw_rgba_size_bytes(), 24 * 36 * 4);
    assert_eq!(Kind::SD.set_dir_name(), "SD");
    assert_eq!(Kind::HD.set_dir_name(), "HD");
    assert_eq!(Kind::SD.set_dir_path("fonts"), "fonts/SD");
    assert_eq!(Kind::HD.set_dir_path("fonts/"), "fonts/HD");
    assert_eq!(Kind::HD.set_dir_path(""), "HD");
}

#[test]
fn kind_inference_is_exact() {
    assert_eq!(Kind::for_size_bytes(7776), Ok(Kind::SD));
    assert_eq!(Kind::for_size_bytes(3456), Ok(Kind::HD));
    for size in [0u64, 1, 3455, 3457, 7775, 7777, 11232, u64::MAX] {
        assert_eq!(Kind::for_size_bytes(size), Err(InvalidSizeError(size)));
    }
    assert_eq!(Kind::for_height(54), Ok(Kind::SD));
    assert_eq!(Kind::for_height(36), Ok(Kind::HD));
    assert_eq!(Kind::for_height(35), Err(InvalidHeightError(35)));
    assert_eq!(Kind::for_dimensions(Dimensions::new(36, 54)), Ok(Kind::SD));
    assert_eq!(Kind::try_from(Dimensions::new(24, 36)), Ok(Kind::HD));
    for dimensions in [Dimensions::new(54, 36), Dimensions::new(36, 36), Dimensions::new(24, 54), Dimensions::new(0, 0)] {
        assert_eq!(Kind::for_dimensions(dimensions), Err(InvalidDimensionsError { dimensions }));
    }
}

#[test]
fn new_tile_is_transparent() {
    for kind in Kind::iter() {
        let tile = Tile::new(kind);
        assert_eq!(tile.as_raw().len(), kind.raw_rgba_size_bytes());
        assert!(tile.as_raw().iter().all(|byte| *byte == 0));
        assert_eq!(tile.image().dimensions(), (kind.dimensions().width, kind.dimensions().height));
    }
}

#[test]
fn tile_from_bytes_keeps_the_bytes() {
    let bytes: Vec<u8> = (0..3456usize).map(|i| (i % 251) as u8).collect();
    let tile = Tile::try_from(bytes.clone()).unwrap();
    assert_eq!(tile.kind(), Kind::HD);
    assert_eq!(tile.as_raw(), &bytes);
    assert_eq!(tile.clone().as_raw(), &bytes);
}

#[test]
fn tile_from_image_of_wrong_dimensions() {
    let image = Image::new(36, 36);
    match Tile::try_from_image(image) {
        Err(error) => assert_eq!(error.dimensions, Dimensions::new(36, 36)),
        Ok(_) => panic!("did not get an error !"),
    }
    let tile = Tile::try_from_image(Image::from_pixel(24, 36, [1, 2, 3, 4])).unwrap();
    assert_eq!(tile.kind(), Kind::HD);
    assert_eq!(&tile.as_raw()[0..8], &[1, 2, 3, 4, 1, 2, 3, 4]);
}

#[test]
fn load_tile_decodes_the_pixels() {
    let content = Ok(png_of(24, 36, 9));
    let tile = Tile::load_image_file("a.png", &content).unwrap();
    let expected: Vec<u8> = (0..3456usize).map(|i| (i as u8).wrapping_mul(7).wrapping_add(9)).collect();
    assert_eq!(tile.as_raw(), &expected);
}

#[test]
fn load_tile_errors() {
    let wrong_size = Ok(png_of(10, 10, 0));
    match Tile::load_image_file("dir/000.png", &wrong_size) {
        Err(LoadError::InvalidDimensionsError { file_path, dimensions }) => {
            assert_eq!(file_path, "dir/000.png");
            assert_eq!(dimensions, Dimensions::new(10, 10));
        },
        other => panic!("got {other:?}"),
    }
    let garbage = Ok(vec![1u8, 2, 3, 4, 5]);
    match Tile::load_image_file("dir/001.png", &garbage) {
        Err(LoadError::ImageReadError(ImageReadError::DecodeError { file_path, .. })) => {
            assert_eq!(file_path, "dir/001.png");
        },
        other => panic!("got {other:?}"),
    }
    let denied = Err(IOError::new(IOErrorKind::PermissionDenied));
    match Tile::load_image_file("dir/002.png", &denied) {
        Err(error) => assert!(!error.is_not_found()),
        Ok(_) => panic!("did not get an error !"),
    }
}

#[test]
fn dimensions_from_text() {
    assert_eq!(Dimensions::from_str("36x54").unwrap(), Dimensions::new(36, 54));
    assert_eq!(Dimensions::from_str("007x0").unwrap(), Dimensions::new(7, 0));
    assert_eq!(Dimensions::from_str("4294967295x1").unwrap(), Dimensions::new(u32::MAX, 1));
    for text in ["", "x", "36x", "x54", "36X54", "36x54x1", " 36x54", "36x-1", "4294967296x1", "3 6x54"] {
        match Dimensions::from_str(text) {
            Err(error) => assert_eq!(error.0, text),
            Ok(dimensions) => panic!("{text} gave {dimensions:?}"),
        }
    }
    assert_eq!(Dimensions::new(606, 110).to_string(), "606x110");
}
