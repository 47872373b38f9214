use hd_fpv_osd_font_tool::file::IOError;
use hd_fpv_osd_font_tool::file::IOErrorKind;
use hd_fpv_osd_font_tool::image::Image;
use hd_fpv_osd_font_tool::osd::bin_file;
use hd_fpv_osd_font_tool::osd::tile::container::load_symbols_from_dir::identify_file_name;
use hd_fpv_osd_font_tool::osd::tile::container::load_symbols_from_dir::load_symbols_from_dir;
use hd_fpv_osd_font_tool::osd::tile::container::load_symbols_from_dir::DirFile;
use hd_fpv_osd_font_tool::osd::tile::container::load_symbols_from_dir::LoadSymbolsFromDirError;
use hd_fpv_osd_font_tool::osd::tile::container::load_symbols_from_dir::SymbolDirFileType;
use hd_fpv_osd_font_tool::osd::tile::container::load_tiles_from_dir::load_tiles_from_dir;
use hd_fpv_osd_font_tool::osd::tile::container::load_tiles_from_dir::tile_file_name;
use hd_fpv_osd_font_tool::osd::tile::container::load_tiles_from_dir::tile_file_path;
use hd_fpv_osd_font_tool::osd::tile::container::load_tiles_from_dir::LoadTilesFromDirError;
use hd_fpv_osd_font_tool::osd::tile::container::save_symbols_to_dir::symbol_file_name;
use hd_fpv_osd_font_tool::osd::tile::container::save_symbols_to_dir::symbols_fit_check;
use hd_fpv_osd_font_tool::osd::tile::container::save_symbols_to_dir::SaveSymbolsToDir;
use hd_fpv_osd_font_tool::osd::tile::container::save_tiles_to_dir::SaveTilesToDir;
use hd_fpv_osd_font_tool::osd::tile::container::save_to_bin_file::SaveToBinFile;
use hd_fpv_osd_font_tool::osd::tile::container::symbol;
use hd_fpv_osd_font_tool::osd::tile::container::symbol::spec::Spec;
use hd_fpv_osd_font_tool::osd::tile::container::symbol::spec::Specs;
use hd_fpv_osd_font_tool::osd::tile::container::symbol::Symbol;
use hd_fpv_osd_font_tool::osd::tile::container::IntoTilesVec;
use hd_fpv_osd_font_tool::osd::tile::container::ToSymbols;
use hd_fpv_osd_font_tool::osd::tile::Kind;
use hd_fpv_osd_font_tool::osd::tile::LoadError as TileLoadError;
use hd_fpv_osd_font_tool::osd::tile::Tile;

fn dir_tile(kind: Kind, seed: usize) -> Tile {
    let bytes: Vec<u8> = (0..kind.raw_rgba_size_bytes()).map(|i| ((i * 9 + seed * 23) % 256) as u8).collect();
    Tile::try_from(bytes).unwrap()
}

fn dir_tiles(kind: Kind, count: usize) -> Vec<Tile> {
    (0..count).map(|index| dir_tile(kind, index)).collect()
}

fn tile_png(kind: Kind, seed: usize) -> Vec<u8> {
    dir_tile(kind, seed).image().write_image_file("tile.png").unwrap()
}

fn symbol_png(kind: Kind, first: usize, span: usize) -> Vec<u8> {
    let tiles: Vec<Tile> = (first..first + span).map(|index| dir_tile(kind, index)).collect();
    Symbol::try_from(tiles).unwrap().generate_image().write_image_file("symbol.png").unwrap()
}

fn same_tiles(left: &[Tile], right: &[Tile]) -> bool {
    left.len() == right.len()
        && left.iter().zip(right.iter()).all(|(a, b)| a.kind() == b.kind() && a.as_raw() == b.as_raw())
}

fn missing() -> Result<Vec<u8>, IOError> {
    Err(IOError::not_found())
}

fn file(name: &str, content: Vec<u8>) -> DirFile {
    DirFile::new(name.to_owned(), Ok(content))
}

#[test]
fn tile_file_names() {
    assert_eq!(tile_file_name(0), "000.png");
    assert_eq!(tile_file_name(7), "007.png");
    assert_eq!(tile_file_name(42), "042.png");
    assert_eq!(tile_file_name(511), "511.png");
    assert_eq!(tile_file_name(1000), "1000.png");
    assert_eq!(tile_file_path("tiles", 11), "tiles/011.png");
}

#[test]
fn symbol_file_names() {
    assert_eq!(symbol_file_name(0, 1), "000.png");
    assert_eq!(symbol_file_name(11, 1), "011.png");
    assert_eq!(symbol_file_name(30, 3), "030-032.png");
    assert_eq!(symbol_file_name(9, 2), "009-010.png");
    assert_eq!(symbol_file_name(998, 4), "998-1001.png");
}

#[test]
fn symbol_file_names_are_identified() {
    assert_eq!(identify_file_name("000.png"), Some(SymbolDirFileType::Tile { index: 0 }));
    assert_eq!(identify_file_name("011.png"), Some(SymbolDirFileType::Tile { index: 11 }));
    assert_eq!(identify_file_name("999.jpg"), Some(SymbolDirFileType::Tile { index: 999 }));
    assert_eq!(identify_file_name("030-032.png"), Some(SymbolDirFileType::Symbol { start_index: 30, end_index: 32 }));
    assert_eq!(identify_file_name("010-010.png"), Some(SymbolDirFileType::Symbol { start_index: 10, end_index: 10 }));
    assert_eq!(identify_file_name("005-003."), Some(SymbolDirFileType::Symbol { start_index: 5, end_index: 3 }));
    for name in ["", "0.png", "00.png", "0000.png", "000", "000png", "000-.png", "000-01.png", "000-0011.png", "000-001", "a00.png", "000_001.png", " 000.png", "readme.txt"] {
        assert_eq!(identify_file_name(name), None, "{name}");
    }
    let tile = SymbolDirFileType::Tile { index: 4 };
    assert_eq!((tile.start_index(), tile.span()), (4, 1));
    let symbol = SymbolDirFileType::Symbol { start_index: 30, end_index: 32 };
    assert_eq!((symbol.start_index(), symbol.span()), (30, 3));
    assert_eq!(SymbolDirFileType::Symbol { start_index: 10, end_index: 10 }.span(), 1);
    assert_eq!(SymbolDirFileType::Symbol { start_index: 5, end_index: 3 }.span(), 0);
}

#[test]
fn tile_dir_fills_gaps() {
    let files = vec![Ok(tile_png(Kind::HD, 0)), missing(), Ok(tile_png(Kind::HD, 2))];
    let tiles = load_tiles_from_dir("tiles", &files).unwrap();
    assert_eq!(tiles.len(), 3);
    assert_eq!(tiles[0].as_raw(), dir_tile(Kind::HD, 0).as_raw());
    assert_eq!(tiles[1].kind(), Kind::HD);
    assert!(tiles[1].as_raw().iter().all(|byte| *byte == 0));
    assert_eq!(tiles[2].as_raw(), dir_tile(Kind::HD, 2).as_raw());
}

#[test]
fn tile_dir_without_tiles() {
    let files = vec![missing(), missing(), missing()];
    match load_tiles_from_dir("tiles", &files) {
        Err(LoadTilesFromDirError::NoTileFound(path)) => assert_eq!(path, "tiles"),
        other => panic!("got {other:?}"),
    }
    assert!(matches!(load_tiles_from_dir("tiles", &Vec::new()), Err(LoadTilesFromDirError::NoTileFound(_))));
}

#[test]
fn tile_dir_drops_trailing_gaps() {
    let files = vec![missing(), Ok(tile_png(Kind::SD, 1)), missing(), missing()];
    let tiles = load_tiles_from_dir("tiles", &files).unwrap();
    assert_eq!(tiles.len(), 2);
    assert_eq!(tiles[0].kind(), Kind::SD);
    assert!(tiles[0].as_raw().iter().all(|byte| *byte == 0));
    assert_eq!(tiles[1].as_raw(), dir_tile(Kind::SD, 1).as_raw());
}

#[test]
fn tile_dir_errors() {
    let mixed = vec![Ok(tile_png(Kind::HD, 0)), missing(), Ok(tile_png(Kind::SD, 2))];
    match load_tiles_from_dir("tiles", &mixed) {
        Err(LoadTilesFromDirError::KindMismatch(path)) => assert_eq!(path, "tiles"),
        other => panic!("got {other:?}"),
    }
    let denied = vec![Ok(tile_png(Kind::HD, 0)), Err(IOError::new(IOErrorKind::PermissionDenied)), Ok(tile_png(Kind::SD, 2))];
    match load_tiles_from_dir("tiles", &denied) {
        Err(LoadTilesFromDirError::TileLoadError(TileLoadError::ImageReadError(error))) => {
            assert!(!error.is_not_found());
        },
        other => panic!("got {other:?}"),
    }
    let wrong = vec![missing(), Ok(Image::new(5, 5).write_image_file("x.png").unwrap())];
    match load_tiles_from_dir("tiles", &wrong) {
        Err(LoadTilesFromDirError::TileLoadError(TileLoadError::InvalidDimensionsError { file_path, .. })) => {
            assert_eq!(file_path, "tiles/001.png");
        },
        other => panic!("got {other:?}"),
    }
}

#[test]
fn tile_dir_round_trip() {
    for kind in Kind::iter() {
        let content: Vec<u8> = dir_tiles(kind, 256).save_to_bin_file().unwrap();
        let tiles = bin_file::load("font.bin", Ok(content.clone())).unwrap();
        let files = tiles.save_tiles_to_dir("tiles").unwrap();
        assert_eq!(files.len(), 256);
        assert_eq!(files[0].0, "tiles/000.png");
        assert_eq!(files[255].0, "tiles/255.png");
        let mut read: Vec<Result<Vec<u8>, IOError>> = files.iter().map(|(_, content)| Ok(content.clone())).collect();
        while read.len() < 512 {
            read.push(missing());
        }
        let loaded = load_tiles_from_dir("tiles", &read).unwrap();
        assert!(same_tiles(&loaded, &tiles));
        assert_eq!(loaded.save_to_bin_file().unwrap(), content);
    }
}

#[test]
fn symbol_dir_round_trip() {
    for kind in Kind::iter() {
        let tiles = dir_tiles(kind, 256);
        let content = tiles.save_to_bin_file().unwrap();
        let specs = Specs::from(vec![Spec::new(3, 4), Spec::new(100, 2), Spec::new(250, 6)]);
        let symbols = tiles.to_symbols(&specs).unwrap();
        assert!(symbols_fit_check(&symbols));
        let written = symbols.save_to_dir("symbols").unwrap();
        assert_eq!(written.len(), 256 - 3 - 1 - 5);
        assert_eq!(written[3].0, "symbols/003-006.png");
        assert_eq!(written[4].0, "symbols/007.png");
        let files: Vec<DirFile> = written
            .iter()
            .rev()
            .map(|(path, content)| file(path.strip_prefix("symbols/").unwrap(), content.clone()))
            .collect();
        let loaded = load_symbols_from_dir("symbols", &files, 512).unwrap();
        assert_eq!(loaded.len(), symbols.len());
        assert_eq!(loaded[3].span(), 4);
        let again = loaded.save_to_dir("symbols").unwrap();
        assert_eq!(again, written);
        assert_eq!(loaded.into_tiles_vec().save_to_bin_file().unwrap(), content);
    }
}

#[test]
fn symbol_dir_fills_gaps() {
    let files = vec![
        file("notes.txt", vec![1, 2, 3]),
        file("004.png", symbol_png(Kind::HD, 4, 1)),
        file("001-002.png", symbol_png(Kind::HD, 1, 2)),
    ];
    let symbols = load_symbols_from_dir("dir", &files, 512).unwrap();
    let spans: Vec<usize> = symbols.iter().map(|symbol| symbol.span()).collect();
    assert_eq!(spans, vec![1, 2, 1, 1]);
    assert!(symbols[0].tiles()[0].as_raw().iter().all(|byte| *byte == 0));
    assert_eq!(symbols[1].tiles()[1].as_raw(), dir_tile(Kind::HD, 2).as_raw());
    assert!(symbols[2].tiles()[0].as_raw().iter().all(|byte| *byte == 0));
    assert_eq!(symbols[3].tiles()[0].as_raw(), dir_tile(Kind::HD, 4).as_raw());
    let short = load_symbols_from_dir("dir", &files, 2).unwrap();
    assert_eq!(short.len(), 2);
    let gone = vec![DirFile::new("000.png".to_owned(), missing()), file("001.png", symbol_png(Kind::SD, 1, 1))];
    assert_eq!(load_symbols_from_dir("dir", &gone, 8).unwrap().len(), 2);
}

#[test]
fn symbol_dir_without_symbols() {
    match load_symbols_from_dir("dir", &Vec::new(), 512) {
        Err(LoadSymbolsFromDirError::NoSymbolFound(path)) => assert_eq!(path, "dir"),
        other => panic!("got {other:?}"),
    }
    let unrelated = vec![file("notes.txt", vec![1, 2, 3])];
    assert!(matches!(load_symbols_from_dir("dir", &unrelated, 512), Err(LoadSymbolsFromDirError::NoSymbolFound(_))));
    let out_of_reach = vec![file("005.png", symbol_png(Kind::HD, 5, 1))];
    assert!(matches!(load_symbols_from_dir("dir", &out_of_reach, 5), Err(LoadSymbolsFromDirError::NoSymbolFound(_))));
    assert!(matches!(load_symbols_from_dir("dir", &out_of_reach, 0), Err(LoadSymbolsFromDirError::NoSymbolFound(_))));
}

#[test]
fn symbol_dir_overlap_is_detected() {
    let files = vec![
        file("000-002.png", symbol_png(Kind::HD, 0, 3)),
        file("001.png", symbol_png(Kind::HD, 1, 1)),
    ];
    match load_symbols_from_dir("dir", &files, 512) {
        Err(LoadSymbolsFromDirError::OverlappingSymbolFiles(first, second)) => {
            assert_eq!(first, "dir/000-002.png");
            assert_eq!(second, "dir/001.png");
        },
        other => panic!("got {other:?}"),
    }
    let reversed = vec![
        file("001.png", symbol_png(Kind::HD, 1, 1)),
        file("000-002.png", symbol_png(Kind::HD, 0, 3)),
    ];
    match load_symbols_from_dir("dir", &reversed, 512) {
        Err(LoadSymbolsFromDirError::OverlappingSymbolFiles(first, second)) => {
            assert_eq!(first, "dir/000-002.png");
            assert_eq!(second, "dir/001.png");
        },
        other => panic!("got {other:?}"),
    }
}

#[test]
fn symbol_dir_same_start_is_an_overlap() {
    let files = vec![
        file("000.png", symbol_png(Kind::HD, 0, 1)),
        file("003.png", symbol_png(Kind::HD, 3, 1)),
        file("000-001.png", symbol_png(Kind::HD, 0, 2)),
    ];
    match load_symbols_from_dir("dir", &files, 512) {
        Err(LoadSymbolsFromDirError::OverlappingSymbolFiles(new, existing)) => {
            assert_eq!(new, "dir/000-001.png");
            assert_eq!(existing, "dir/000.png");
        },
        other => panic!("got {other:?}"),
    }
}

#[test]
fn symbol_dir_span_must_match_the_name() {
    let files = vec![file("010-010.png", symbol_png(Kind::SD, 10, 2))];
    match load_symbols_from_dir("dir", &files, 512) {
        Err(LoadSymbolsFromDirError::SymbolSpanDoesNotMatchName { file_name, real_span }) => {
            assert_eq!(file_name, "dir/010-010.png");
            assert_eq!(real_span, 2);
        },
        other => panic!("got {other:?}"),
    }
    let backwards = vec![file("005-003.png", symbol_png(Kind::SD, 5, 1))];
    assert!(matches!(
        load_symbols_from_dir("dir", &backwards, 512),
        Err(LoadSymbolsFromDirError::SymbolSpanDoesNotMatchName { real_span: 1, .. })
    ));
    let fewer = vec![file("000-002.png", symbol_png(Kind::SD, 0, 2))];
    assert!(matches!(
        load_symbols_from_dir("dir", &fewer, 512),
        Err(LoadSymbolsFromDirError::SymbolSpanDoesNotMatchName { real_span: 2, .. })
    ));
}

#[test]
fn symbol_dir_errors() {
    let mixed = vec![file("000.png", symbol_png(Kind::SD, 0, 1)), file("002.png", symbol_png(Kind::HD, 2, 1))];
    match load_symbols_from_dir("dir", &mixed, 512) {
        Err(LoadSymbolsFromDirError::KindMismatch(path)) => assert_eq!(path, "dir"),
        other => panic!("got {other:?}"),
    }
    let broken = vec![file("000.png", vec![9, 9, 9])];
    assert!(matches!(
        load_symbols_from_dir("dir", &broken, 512),
        Err(LoadSymbolsFromDirError::LoadError(symbol::LoadError::ImageReadError(_)))
    ));
    let denied = vec![DirFile::new("000.png".to_owned(), Err(IOError::new(IOErrorKind::Other)))];
    assert!(matches!(
        load_symbols_from_dir("dir", &denied, 512),
        Err(LoadSymbolsFromDirError::LoadError(symbol::LoadError::ImageReadError(_)))
    ));
    let listing = LoadSymbolsFromDirError::dir_list_files("dir", IOError::new(IOErrorKind::PermissionDenied));
    assert!(matches!(listing, LoadSymbolsFromDirError::DirListFiles { dir_path, .. } if dir_path == "dir"));
}
