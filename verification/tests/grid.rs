use hd_fpv_osd_font_tool::dimensions::Dimensions;
use hd_fpv_osd_font_tool::file::IOError;
use hd_fpv_osd_font_tool::image::read_image_file;
use hd_fpv_osd_font_tool::image::Image;
use hd_fpv_osd_font_tool::image::ReadError;
use hd_fpv_osd_font_tool::osd::avatar_file;
use hd_fpv_osd_font_tool::osd::tile::container::into_tile_grid::IntoTileGrid;
use hd_fpv_osd_font_tool::osd::tile::container::save_to_avatar_file::SaveTilesToAvatarFile;
use hd_fpv_osd_font_tool::osd::tile::container::save_to_avatar_file::SaveToAvatarFile;
use hd_fpv_osd_font_tool::osd::tile::container::save_to_bin_file::SaveTilesToBinFile;
use hd_fpv_osd_font_tool::osd::tile::container::save_to_bin_file::SaveToBinFile;
use hd_fpv_osd_font_tool::osd::tile::container::save_to_grid::SaveToGridImage;
use hd_fpv_osd_font_tool::osd::tile::container::uniq_tile_kind::TileKindError;
use hd_fpv_osd_font_tool::osd::tile::container::uniq_tile_kind::UniqTileKind;
use hd_fpv_osd_font_tool::osd::tile::grid;
use hd_fpv_osd_font_tool::osd::tile::grid::Grid;
use hd_fpv_osd_font_tool::osd::tile::grid::GridSet;
use hd_fpv_osd_font_tool::osd::tile::grid::InvalidImageDimensionsError;
use hd_fpv_osd_font_tool::osd::tile::InvalidDimensionsError;
use hd_fpv_osd_font_tool::osd::tile::Kind;
use hd_fpv_osd_font_tool::osd::tile::Tile;

fn grid_tile(kind: Kind, seed: usize) -> Tile {
    let bytes: Vec<u8> = (0..kind.raw_rgba_size_bytes()).map(|i| ((i * 5 + seed * 11) % 256) as u8).collect();
    Tile::try_from(bytes).unwrap()
}

fn grid_tiles(kind: Kind, count: usize) -> Vec<Tile> {
    (0..count).map(|index| grid_tile(kind, index)).collect()
}

fn same_tiles(left: &[Tile], right: &[Tile]) -> bool {
    left.len() == right.len()
        && left.iter().zip(right.iter()).all(|(a, b)| a.kind() == b.kind() && a.as_raw() == b.as_raw())
}

#[test]
fn image_pixels() {
    let black = Image::from_pixel(3, 2, [0, 0, 0, 255]);
    assert_eq!(black.dimensions(), (3, 2));
    assert_eq!(black.as_raw(), &vec![0, 0, 0, 255, 0, 0, 0, 255, 0, 0, 0, 255, 0, 0, 0, 255, 0, 0, 0, 255, 0, 0, 0, 255]);
    assert!(Image::new(2, 2).as_raw().iter().all(|byte| *byte == 0));
    assert!(Image::from_raw(2, 2, vec![0; 15]).is_none());
    assert!(Image::from_raw(2, 2, vec![0; 17]).is_none());
    let data: Vec<u8> = (0..48).collect();
    let image = Image::from_raw(4, 3, data.clone()).unwrap();
    assert_eq!(image.width(), 4);
    assert_eq!(image.height(), 3);
    let part = image.sub_image(1, 1, 2, 2);
    assert_eq!(part.dimensions(), (2, 2));
    assert_eq!(part.as_raw(), &vec![20, 21, 22, 23, 24, 25, 26, 27, 36, 37, 38, 39, 40, 41, 42, 43]);
    let mut target = Image::new(4, 3);
    target.copy_from(&part, 2, 0);
    let mut expected = vec![0u8; 48];
    expected[8..16].copy_from_slice(&[20, 21, 22, 23, 24, 25, 26, 27]);
    expected[24..32].copy_from_slice(&[36, 37, 38, 39, 40, 41, 42, 43]);
    assert_eq!(target.into_raw(), expected);
    assert!(Image::fits(606, 894));
    assert_eq!(image.clone().as_raw(), &data);
}

#[test]
fn png_encoding_and_decoding() {
    let data: Vec<u8> = (0..(5 * 4 * 4)).map(|i| (i * 3) as u8).collect();
    let image = Image::from_raw(5, 4, data.clone()).unwrap();
    let content = image.write_image_file("out.png").unwrap();
    assert_eq!(&content[0..8], &[0x89, b'P', b'N', b'G', 0x0d, 0x0a, 0x1a, 0x0a]);
    assert_ne!(content, data);
    let decoded = image::load_from_memory(&content).unwrap().into_rgba8();
    assert_eq!(decoded.dimensions(), (5, 4));
    assert_eq!(decoded.into_raw(), data);
    let read = read_image_file("out.png", &Ok(content.clone())).unwrap();
    assert_eq!(read.dimensions(), (5, 4));
    assert_eq!(read.as_raw(), &data);
    assert!(matches!(
        read_image_file("bad.png", &Ok(data.clone())),
        Err(ReadError::DecodeError { file_path, .. }) if file_path == "bad.png"
    ));
    match read_image_file("gone.png", &Err(IOError::not_found())) {
        Err(error) => assert!(error.is_not_found()),
        Ok(_) => panic!("did not get an error !"),
    }
    match Image::new(0, 0).write_image_file("empty.png") {
        Err(error) => assert_eq!(error.file_path, "empty.png"),
        Ok(_) => panic!("an image without pixels was encoded"),
    }
}

#[test]
fn grid_geometry() {
    assert_eq!(Grid::index_to_grid_coordinates(0), (0, 0));
    assert_eq!(Grid::index_to_grid_coordinates(15), (15, 0));
    assert_eq!(Grid::index_to_grid_coordinates(16), (0, 1));
    assert_eq!(Grid::index_to_grid_coordinates(37), (5, 2));
    assert_eq!(Grid::grid_coordinates_to_index(5, 2), 37);
    assert_eq!(Grid::image_tile_position(&Kind::SD, 0, 0), (0, 0));
    assert_eq!(Grid::image_tile_position(&Kind::SD, 3, 2), (114, 112));
    assert_eq!(Grid::image_tile_position(&Kind::HD, 15, 15), (390, 570));
    assert_eq!(Grid::image_dimensions(&Kind::SD, 1), Dimensions::new(606, 54));
    assert_eq!(Grid::image_dimensions(&Kind::SD, 16), Dimensions::new(606, 894));
    assert_eq!(Grid::image_dimensions(&Kind::HD, 16), Dimensions::new(414, 606));
    assert_eq!(Grid::image_dimensions(&Kind::HD, 32), Dimensions::new(414, 1214));
    assert_eq!(Grid::from(grid_tiles(Kind::HD, 1)).height(), 1);
    assert_eq!(Grid::from(grid_tiles(Kind::HD, 16)).height(), 1);
    assert_eq!(Grid::from(grid_tiles(Kind::HD, 17)).height(), 2);
    assert_eq!(Grid::from(Vec::new()).height(), 0);
}

#[test]
fn grid_kind_and_height_from_dimensions() {
    assert_eq!(Grid::image_tile_kind_and_grid_height(Dimensions::new(606, 54)), Ok((Kind::SD, 1)));
    assert_eq!(Grid::image_tile_kind_and_grid_height(Dimensions::new(606, 894)), Ok((Kind::SD, 16)));
    assert_eq!(Grid::image_tile_kind_and_grid_height(Dimensions::new(414, 606)), Ok((Kind::HD, 16)));
    assert_eq!(Grid::image_tile_kind_and_grid_height(Dimensions::new(414, 74)), Ok((Kind::HD, 2)));
    for dimensions in [
        Dimensions::new(606, 55),
        Dimensions::new(606, 53),
        Dimensions::new(606, 0),
        Dimensions::new(606, 606),
        Dimensions::new(414, 54),
        Dimensions::new(605, 54),
        Dimensions::new(0, 0),
        Dimensions::new(894, 606),
    ] {
        assert_eq!(Grid::image_tile_kind_and_grid_height(dimensions), Err(InvalidImageDimensionsError));
    }
}

#[test]
fn grid_image_layout() {
    let tiles = grid_tiles(Kind::HD, 17);
    let grid = Grid::from(tiles);
    assert!(grid.image_fits());
    let image = grid.generate_image().unwrap();
    assert_eq!(image.dimensions(), (414, 74));
    for index in 0..17u32 {
        let (x, y) = ((index % 16) * 26, (index / 16) * 38);
        assert_eq!(image.sub_image(x, y, 24, 36).as_raw(), grid_tile(Kind::HD, index as usize).as_raw());
    }
    let border = image.sub_image(24, 0, 2, 36);
    assert!(border.as_raw().chunks(4).all(|pixel| pixel == [0, 0, 0, 255]));
    let row_border = image.sub_image(0, 36, 414, 2);
    assert!(row_border.as_raw().chunks(4).all(|pixel| pixel == [0, 0, 0, 255]));
    let free_cell = image.sub_image(26, 38, 24, 36);
    assert!(free_cell.as_raw().chunks(4).all(|pixel| pixel == [0, 0, 0, 255]));
    assert_eq!(grid.get(0, 1).as_raw(), grid_tile(Kind::HD, 16).as_raw());
    assert_eq!(grid.len(), 17);
}

#[test]
fn grid_round_trip() {
    for kind in Kind::iter() {
        let tiles = grid_tiles(kind, 256);
        let content = tiles.save_to_grid_image("grid.png").unwrap();
        let loaded = Grid::load_from_image("grid.png", &Ok(content.clone())).unwrap();
        assert!(same_tiles(&loaded.0, &tiles));
        assert_eq!(loaded.save_image("grid.png").unwrap(), content);
        assert_eq!(loaded.save_tiles_to_bin_file().unwrap(), tiles.save_to_bin_file().unwrap());
    }
}

#[test]
fn grid_load_fills_the_last_row() {
    let tiles = grid_tiles(Kind::SD, 3);
    let content = tiles.save_to_grid_image("grid.png").unwrap();
    let loaded = Grid::load_from_image("grid.png", &Ok(content)).unwrap().to_vec();
    assert_eq!(loaded.len(), 16);
    assert!(same_tiles(&loaded[0..3], &tiles));
    assert!(loaded[3].as_raw().chunks(4).all(|pixel| pixel == [0, 0, 0, 255]));
}

#[test]
fn grid_errors() {
    let none: Vec<Tile> = Vec::new();
    assert!(matches!(none.save_to_grid_image("g.png"), Err(grid::SaveImageError::TileKindError(TileKindError::EmptyContainer))));
    let mixed = vec![grid_tile(Kind::SD, 0), grid_tile(Kind::HD, 0)];
    assert!(matches!(
        Grid::from(mixed).generate_image(),
        Err(TileKindError::MultipleTileKinds)
    ));
    let wrong = Image::new(100, 100).write_image_file("w.png").unwrap();
    assert!(matches!(
        Grid::load_from_image("w.png", &Ok(wrong)),
        Err(grid::LoadError::InvalidImageDimensions(InvalidImageDimensionsError))
    ));
    assert!(matches!(
        Grid::load_from_image("w.png", &Err(IOError::not_found())),
        Err(grid::LoadError::ImageLoadError(ReadError::OpenError { .. }))
    ));
    assert!(matches!(
        Grid::load_from_image_norm("d", Kind::HD, &None, &Ok(vec![1, 2, 3])),
        Err(grid::LoadError::ImageLoadError(ReadError::DecodeError { file_path, .. })) if file_path == "d/grid_hd.png"
    ));
}

#[test]
fn grid_normalized_names() {
    assert_eq!(grid::normalized_image_file_name(Kind::SD, &None), "grid.png");
    assert_eq!(grid::normalized_image_file_name(Kind::HD, &None), "grid_hd.png");
    assert_eq!(grid::normalized_image_file_name(Kind::SD, &Some("ardu")), "grid_ardu.png");
    assert_eq!(grid::normalized_image_file_name(Kind::HD, &Some("ardu")), "grid_ardu_hd.png");
    assert_eq!(grid::normalized_image_file_path("out", Kind::HD, &Some("a")), "out/grid_a_hd.png");
    let grid = grid_tiles(Kind::HD, 2).into_tile_grid();
    assert_eq!(grid.normalized_image_file_name(&None).unwrap(), "grid_hd.png");
    assert_eq!(grid.normalized_image_file_path("x/", &Some("i")).unwrap(), "x/grid_i_hd.png");
    let (path, content) = grid.save_image_norm("x", &None).unwrap();
    assert_eq!(path, "x/grid_hd.png");
    assert_eq!(content, grid.save_image("other.png").unwrap());
    assert!(matches!(Grid::from(Vec::new()).normalized_image_file_name(&None), Err(TileKindError::EmptyContainer)));
}

#[test]
fn grid_set() {
    let sd = grid_tiles(Kind::SD, 16).save_to_grid_image("sd.png").unwrap();
    let hd = grid_tiles(Kind::HD, 32).save_to_grid_image("hd.png").unwrap();
    let set = GridSet::load_from_images("sd.png", "hd.png", &Ok(sd.clone()), &Ok(hd.clone())).unwrap();
    assert_eq!(set.sd_grid().len(), 16);
    assert_eq!(set.hd_grid().len(), 32);
    let (sd_again, hd_again) = set.save_images("a.png", "b.png").unwrap();
    assert_eq!(sd_again, sd);
    assert_eq!(hd_again, hd);
    let ((sd_path, _), (hd_path, _)) = set.save_images_norm("d", &Some("x")).unwrap();
    assert_eq!(sd_path, "d/grid_x.png");
    assert_eq!(hd_path, "d/grid_x_hd.png");
    let tile_set = set.into_tile_set();
    assert!(same_tiles(tile_set.sd_tiles(), &grid_tiles(Kind::SD, 16)));
    assert!(same_tiles(tile_set.hd_tiles(), &grid_tiles(Kind::HD, 32)));
    match GridSet::load_from_images("sd.png", "hd.png", &Ok(hd.clone()), &Ok(hd.clone())) {
        Err(grid::LoadError::TileKindError(TileKindError::LoadedDoesNotMatchRequested { requested, loaded })) => {
            assert_eq!(requested, Kind::SD);
            assert_eq!(loaded, Kind::HD);
        },
        other => panic!("got {:?}", other.is_ok()),
    }
    assert!(GridSet::load_from_images_norm("d", &None, &Ok(sd), &Ok(hd)).is_ok());
    assert_eq!(GridSet::check_grid_kind(&Grid::from(grid_tiles(Kind::HD, 1)), Kind::HD), Ok(()));
}

#[test]
fn avatar_geometry() {
    assert_eq!(Kind::SD.avatar_image_dimensions(), Dimensions::new(36, 13824));
    assert_eq!(Kind::HD.avatar_image_dimensions(), Dimensions::new(24, 9216));
    assert_eq!(Kind::for_avatar_image_dimensions(Dimensions::new(36, 13824)), Ok(Kind::SD));
    assert_eq!(Kind::for_avatar_image_dimensions(Dimensions::new(24, 9216)), Ok(Kind::HD));
    for dimensions in [Dimensions::new(36, 9216), Dimensions::new(24, 13824), Dimensions::new(36, 54), Dimensions::new(0, 0)] {
        assert_eq!(Kind::for_avatar_image_dimensions(dimensions), Err(InvalidDimensionsError { dimensions }));
    }
}

#[test]
fn avatar_round_trip() {
    for kind in Kind::iter() {
        let tiles = grid_tiles(kind, 256);
        let content = avatar_file::save(&tiles, "avatar.png").unwrap();
        let image = read_image_file("avatar.png", &Ok(content.clone())).unwrap();
        assert_eq!(image.dimensions(), (kind.dimensions().width, 256 * kind.dimensions().height));
        assert_eq!(image.as_raw(), &tiles.save_to_bin_file().unwrap());
        let loaded = avatar_file::load("avatar.png", &Ok(content.clone())).unwrap();
        assert!(same_tiles(&loaded, &tiles));
        assert_eq!(loaded.save_to_avatar_file("avatar.png").unwrap(), content);
        assert_eq!(Grid::from(loaded).save_tiles_to_avatar_file("avatar.png").unwrap(), content);
    }
}

#[test]
fn avatar_uses_the_first_256_tiles() {
    let tiles = grid_tiles(Kind::HD, 300);
    let content = avatar_file::save(&tiles, "avatar.png").unwrap();
    assert_eq!(content, avatar_file::save(&grid_tiles(Kind::HD, 256), "avatar.png").unwrap());
}

#[test]
fn avatar_errors() {
    assert!(matches!(avatar_file::save(&grid_tiles(Kind::HD, 255), "a.png"), Err(avatar_file::SaveError::WrongCollectionSize(255))));
    assert!(matches!(avatar_file::save(&Vec::new(), "a.png"), Err(avatar_file::SaveError::WrongCollectionSize(0))));
    let mut mixed = grid_tiles(Kind::HD, 256);
    mixed.push(grid_tile(Kind::SD, 0));
    assert!(matches!(avatar_file::save(&mixed, "a.png"), Err(avatar_file::SaveError::TileKindError(TileKindError::MultipleTileKinds))));
    let wrong = Image::new(24, 36).write_image_file("w.png").unwrap();
    match avatar_file::load("w.png", &Ok(wrong)) {
        Err(avatar_file::LoadError::InvalidDimensionsError { file_path, dimensions }) => {
            assert_eq!(file_path, "w.png");
            assert_eq!(dimensions, Dimensions::new(24, 36));
        },
        other => panic!("got {:?}", other.is_ok()),
    }
    assert!(matches!(avatar_file::load("w.png", &Err(IOError::not_found())), Err(avatar_file::LoadError::ImageReadError(_))));
}

#[test]
fn uniform_kind_of_tiles() {
    assert_eq!(grid_tiles(Kind::HD, 4).tile_kind(), Ok(Kind::HD));
    assert_eq!(grid_tiles(Kind::SD, 1).tile_kind(), Ok(Kind::SD));
    assert_eq!(Vec::<Tile>::new().tile_kind(), Err(TileKindError::EmptyContainer));
    let mut mixed = grid_tiles(Kind::HD, 4);
    mixed.push(grid_tile(Kind::SD, 0));
    assert_eq!(mixed.tile_kind(), Err(TileKindError::MultipleTileKinds));
}
