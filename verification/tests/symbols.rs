use hd_fpv_osd_font_tool::dimensions::Dimensions;
use hd_fpv_osd_font_tool::file::Action;
use hd_fpv_osd_font_tool::file::IOError;
use hd_fpv_osd_font_tool::file::IOErrorKind;
use hd_fpv_osd_font_tool::image::Image;
use hd_fpv_osd_font_tool::osd::tile::container::symbol;
use hd_fpv_osd_font_tool::osd::tile::container::symbol::spec::parse_spec;
use hd_fpv_osd_font_tool::osd::tile::container::symbol::spec::LoadSpecsFileError;
use hd_fpv_osd_font_tool::osd::tile::container::symbol::spec::Spec;
use hd_fpv_osd_font_tool::osd::tile::container::symbol::spec::Specs;
use hd_fpv_osd_font_tool::osd::tile::container::symbol::Symbol;
use hd_fpv_osd_font_tool::osd::tile::container::symbol_tiles_iter::AsTilesVec;
use hd_fpv_osd_font_tool::osd::tile::container::symbol_tiles_iter::IntoSymbolsTilesIter;
use hd_fpv_osd_font_tool::osd::tile::container::uniq_tile_kind::TileKindError;
use hd_fpv_osd_font_tool::osd::tile::container::uniq_tile_kind::UniqTileKind;
use hd_fpv_osd_font_tool::osd::tile::container::IntoTilesVec;
use hd_fpv_osd_font_tool::osd::tile::container::ToSymbols;
use hd_fpv_osd_font_tool::osd::tile::InvalidHeightError;
use hd_fpv_osd_font_tool::osd::tile::Kind;
use hd_fpv_osd_font_tool::osd::tile::Tile;

fn symbol_tile(kind: Kind, seed: usize) -> Tile {
    let bytes: Vec<u8> = (0..kind.raw_rgba_size_bytes()).map(|i| ((i * 3 + seed * 17) % 256) as u8).collect();
    Tile::try_from(bytes).unwrap()
}

fn symbol_tiles(kind: Kind, count: usize) -> Vec<Tile> {
    (0..count).map(|index| symbol_tile(kind, index)).collect()
}

fn same_tiles(left: &[Tile], right: &[Tile]) -> bool {
    left.len() == right.len()
        && left.iter().zip(right.iter()).all(|(a, b)| a.kind() == b.kind() && a.as_raw() == b.as_raw())
}

fn spans(symbols: &[Symbol]) -> Vec<usize> {
    symbols.iter().map(|symbol| symbol.span()).collect()
}

#[test]
fn spec_entries() {
    let spec = Spec::new(10, 3);
    assert_eq!(spec.start_tile_index(), 10);
    assert_eq!(spec.span(), 3);
    assert_eq!(spec.end_tile_index(), 13);
    assert_eq!(spec.tile_index_range(), 10..13);
    let specs = Specs::from(vec![Spec::new(4, 2), Spec::new(9, 1), Spec::new(4, 7)]);
    assert_eq!(specs.len(), 3);
    assert_eq!(specs.find_start_index(4), Some(&Spec::new(4, 2)));
    assert_eq!(specs.find_start_index(9), Some(&Spec::new(9, 1)));
    assert_eq!(specs.find_start_index(5), None);
    assert_eq!(Specs::from(Vec::new()).find_start_index(0), None);
}

#[test]
fn segmentation_follows_the_table() {
    let tiles = symbol_tiles(Kind::HD, 10);
    let specs = Specs::from(vec![Spec::new(2, 3), Spec::new(7, 2)]);
    let symbols = tiles.to_symbols(&specs).unwrap();
    assert_eq!(spans(&symbols), vec![1, 1, 3, 1, 1, 2, 1]);
    assert!(same_tiles(symbols[2].tiles(), &tiles[2..5]));
    assert!(same_tiles(symbols[5].tiles(), &tiles[7..9]));
    assert!(symbols.iter().all(|symbol| symbol.tile_kind() == Kind::HD));
    assert!(same_tiles(&symbols.into_tiles_vec(), &tiles));
}

#[test]
fn segmentation_without_table() {
    let tiles = symbol_tiles(Kind::SD, 4);
    let symbols = tiles.to_symbols(&Specs::from(Vec::new())).unwrap();
    assert_eq!(spans(&symbols), vec![1, 1, 1, 1]);
    assert!(Vec::<Tile>::new().to_symbols(&Specs::from(vec![Spec::new(0, 2)])).unwrap().is_empty());
}

#[test]
fn segmentation_passes_over_entries_inside_a_symbol() {
    let tiles = symbol_tiles(Kind::SD, 6);
    let specs = Specs::from(vec![Spec::new(0, 4), Spec::new(2, 3), Spec::new(4, 2)]);
    let symbols = tiles.to_symbols(&specs).unwrap();
    assert_eq!(spans(&symbols), vec![4, 2]);
}

#[test]
fn segmentation_ends_with_the_last_tile() {
    let tiles = symbol_tiles(Kind::SD, 5);
    let specs = Specs::from(vec![Spec::new(3, 4), Spec::new(100, 2)]);
    let symbols = tiles.to_symbols(&specs).unwrap();
    assert_eq!(spans(&symbols), vec![1, 1, 1, 2]);
    assert!(same_tiles(&symbols.into_tiles_vec(), &tiles));
}

#[test]
fn segmentation_errors() {
    let tiles = symbol_tiles(Kind::SD, 5);
    assert!(matches!(tiles.to_symbols(&Specs::from(vec![Spec::new(2, 0)])), Err(TileKindError::EmptyContainer)));
    let mut mixed = symbol_tiles(Kind::SD, 2);
    mixed.push(symbol_tile(Kind::HD, 0));
    assert!(matches!(mixed.to_symbols(&Specs::from(vec![Spec::new(1, 2)])), Err(TileKindError::MultipleTileKinds)));
    assert_eq!(spans(&mixed.to_symbols(&Specs::from(Vec::new())).unwrap()), vec![1, 1, 1]);
}

#[test]
fn symbol_construction() {
    let blank = Symbol::new(Kind::HD);
    assert_eq!(blank.span(), 1);
    assert_eq!(blank.tile_kind(), Kind::HD);
    assert!(blank.tiles()[0].as_raw().iter().all(|byte| *byte == 0));
    let single = Symbol::from(symbol_tile(Kind::SD, 4));
    assert_eq!(single.span(), 1);
    assert_eq!(single.tile_kind(), Kind::SD);
    let tiles = symbol_tiles(Kind::SD, 3);
    let symbol = Symbol::try_from(tiles.clone()).unwrap();
    assert_eq!(symbol.span(), 3);
    assert!(same_tiles(symbol.clone().tiles(), &tiles));
    assert!(same_tiles(&symbol.into_tiles(), &tiles));
    assert!(matches!(Symbol::try_from(Vec::new()), Err(TileKindError::EmptyContainer)));
    let mixed = vec![symbol_tile(Kind::SD, 0), symbol_tile(Kind::HD, 0)];
    assert!(matches!(Symbol::try_from(mixed), Err(TileKindError::MultipleTileKinds)));
}

#[test]
fn symbol_image_layout() {
    let tiles = symbol_tiles(Kind::HD, 3);
    let symbol = Symbol::try_from(tiles.clone()).unwrap();
    assert!(symbol.image_fits());
    assert_eq!(symbol.image_dimensions(), Dimensions::new(72, 36));
    let image = symbol.generate_image();
    assert_eq!(image.dimensions(), (72, 36));
    for index in 0..3u32 {
        assert_eq!(image.sub_image(index * 24, 0, 24, 36).as_raw(), tiles[index as usize].as_raw());
    }
    assert_eq!(Symbol::from(symbol_tile(Kind::SD, 1)).image_dimensions(), Dimensions::new(36, 54));
}

#[test]
fn symbol_image_round_trip() {
    for kind in Kind::iter() {
        let tiles = symbol_tiles(kind, 4);
        let symbol = Symbol::try_from(tiles.clone()).unwrap();
        let content = symbol.generate_image().write_image_file("000-003.png").unwrap();
        let loaded = Symbol::load_image_file("000-003.png", &Ok(content.clone())).unwrap();
        assert_eq!(loaded.tile_kind(), kind);
        assert!(same_tiles(loaded.tiles(), &tiles));
        assert_eq!(loaded.generate_image().write_image_file("000-003.png").unwrap(), content);
    }
}

#[test]
fn symbol_load_errors() {
    let wrong_height = Image::new(36, 50).write_image_file("a.png").unwrap();
    assert!(matches!(
        Symbol::load_image_file("a.png", &Ok(wrong_height)),
        Err(symbol::LoadError::InvalidImageHeightError(InvalidHeightError(50)))
    ));
    let wrong_width = Image::new(50, 36).write_image_file("a.png").unwrap();
    assert!(matches!(
        Symbol::load_image_file("a.png", &Ok(wrong_width)),
        Err(symbol::LoadError::InvalidImageWidthError { tile_kind: Kind::HD, image_width: 50 })
    ));
    assert!(matches!(
        Symbol::load_image_file("a.png", &Ok(vec![0, 1, 2])),
        Err(symbol::LoadError::ImageReadError(_))
    ));
    match Symbol::load_image_file("a.png", &Err(IOError::not_found())) {
        Err(error) => assert!(error.is_not_found()),
        Ok(_) => panic!("did not get an error !"),
    }
}

#[test]
fn uniform_kind_of_symbols() {
    let symbols = vec![Symbol::new(Kind::HD), Symbol::try_from(symbol_tiles(Kind::HD, 2)).unwrap()];
    assert_eq!(symbols.tile_kind(), Ok(Kind::HD));
    assert_eq!(Vec::<Symbol>::new().tile_kind(), Err(TileKindError::EmptyContainer));
    let mixed = vec![Symbol::new(Kind::HD), Symbol::new(Kind::SD)];
    assert_eq!(mixed.tile_kind(), Err(TileKindError::MultipleTileKinds));
}

#[test]
fn symbols_tiles_walk() {
    let tiles = symbol_tiles(Kind::HD, 6);
    let symbols = tiles.to_symbols(&Specs::from(vec![Spec::new(1, 3)])).unwrap();
    let mut walk = symbols.tiles_iter();
    let mut seen = Vec::new();
    while let Some(tile) = walk.next() {
        seen.push(tile.clone());
    }
    assert!(same_tiles(&seen, &tiles));
    assert!(walk.next().is_none());
    let borrowed = symbols.as_tiles_vec();
    assert_eq!(borrowed.len(), 6);
    assert!(borrowed.iter().zip(tiles.iter()).all(|(a, b)| a.as_raw() == b.as_raw()));
    assert!(Vec::<Symbol>::new().tiles_iter().next().is_none());
}

#[test]
fn spec_texts() {
    assert_eq!(parse_spec("10:3"), Some(Spec::new(10, 3)));
    assert_eq!(parse_spec("0:1"), Some(Spec::new(0, 1)));
    assert_eq!(parse_spec("007:010"), Some(Spec::new(7, 10)));
    assert_eq!(parse_spec("0x1F:2"), Some(Spec::new(31, 2)));
    assert_eq!(parse_spec("0xff:16"), Some(Spec::new(255, 16)));
    assert_eq!(parse_spec("0x10:0"), Some(Spec::new(16, 0)));
    for text in [
        "", ":", "10", "10:", ":3", "10:3:1", " 10:3", "10:3 ", "1 0:3", "-1:3", "+1:3", "10:0x3", "0x:3", "0xg1:3",
        "0X1F:2", "x1F:2", "1_0:3", "10;3", "0b101:1", "99999999999999999999999999:1", "1:99999999999999999999999999",
        "0xfffffffffffffffffffffffff:1",
    ] {
        assert_eq!(parse_spec(text), None, "{text}");
    }
}

#[test]
fn specs_from_entries() {
    let entries = vec![
        ("arrow".to_owned(), "0x60:2".to_owned()),
        ("home".to_owned(), "17:1".to_owned()),
        ("logo".to_owned(), "256:24".to_owned()),
    ];
    let specs = Specs::from_entries("specs.yaml", &entries).unwrap();
    assert_eq!(specs.0, vec![Spec::new(96, 2), Spec::new(17, 1), Spec::new(256, 24)]);
    let bad = vec![
        ("arrow".to_owned(), "0x60:2".to_owned()),
        ("home".to_owned(), "17-1".to_owned()),
        ("logo".to_owned(), "nothing".to_owned()),
    ];
    match Specs::from_entries("specs.yaml", &bad) {
        Err(LoadSpecsFileError::InvalidSymbolSpec { file_path, symbol_name, spec }) => {
            assert_eq!(file_path, "specs.yaml");
            assert_eq!(symbol_name, "home");
            assert_eq!(spec, "17-1");
        },
        other => panic!("got {other:?}"),
    }
    assert!(Specs::from_entries("specs.yaml", &Vec::new()).unwrap().0.is_empty());
}

#[test]
fn specs_from_yaml() {
    let text = b"arrow: \"0x60:2\"\nhome: \"17:1\"\nlogo: 256:24\n".to_vec();
    let specs = Specs::load_file("specs.yaml", &Ok(text)).unwrap();
    assert_eq!(specs.len(), 3);
    assert_eq!(specs.find_start_index(96), Some(&Spec::new(96, 2)));
    assert_eq!(specs.find_start_index(17), Some(&Spec::new(17, 1)));
    assert_eq!(specs.find_start_index(256), Some(&Spec::new(256, 24)));
    assert_eq!(specs.find_start_index(0), None);
    assert_eq!(Specs::load_file("specs.yaml", &Ok(b"{}".to_vec())).unwrap().len(), 0);
}

#[test]
fn specs_file_errors() {
    match Specs::load_file("specs.yaml", &Ok(b"- a\n- b\n".to_vec())) {
        Err(LoadSpecsFileError::FileStructureError { file_path, .. }) => assert_eq!(file_path, "specs.yaml"),
        other => panic!("got {other:?}"),
    }
    match Specs::load_file("specs.yaml", &Ok(b"home: seventeen\n".to_vec())) {
        Err(LoadSpecsFileError::InvalidSymbolSpec { file_path, symbol_name, spec }) => {
            assert_eq!(file_path, "specs.yaml");
            assert_eq!(symbol_name, "home");
            assert_eq!(spec, "seventeen");
        },
        other => panic!("got {other:?}"),
    }
    match Specs::load_file("specs.yaml", &Err(IOError::not_found())) {
        Err(LoadSpecsFileError::OpenError(error)) => {
            assert_eq!(*error.action(), Action::Open);
            assert_eq!(error.path(), "specs.yaml");
            assert_eq!(error.error().kind(), IOErrorKind::NotFound);
        },
        other => panic!("got {other:?}"),
    }
}
