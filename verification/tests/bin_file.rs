use hd_fpv_osd_font_tool::file::IOError;
use hd_fpv_osd_font_tool::file::IOErrorKind;
use hd_fpv_osd_font_tool::osd::bin_file;
use hd_fpv_osd_font_tool::osd::bin_file::BinFileReader;
use hd_fpv_osd_font_tool::osd::bin_file::BinFileWriter;
use hd_fpv_osd_font_tool::osd::bin_file::FillRemainingSpaceError;
use hd_fpv_osd_font_tool::osd::bin_file::FontPart;
use hd_fpv_osd_font_tool::osd::bin_file::LoadError;
use hd_fpv_osd_font_tool::osd::bin_file::OpenError;
use hd_fpv_osd_font_tool::osd::bin_file::SeekError;
use hd_fpv_osd_font_tool::osd::bin_file::SeekFrom;
use hd_fpv_osd_font_tool::osd::bin_file::SeekReadError;
use hd_fpv_osd_font_tool::osd::bin_file::TileWriteError;
use hd_fpv_osd_font_tool::osd::tile::container::save_to_bin_file::SaveTilesToBinFileError;
use hd_fpv_osd_font_tool::osd::tile::container::save_to_bin_file::SaveToBinFile;
use hd_fpv_osd_font_tool::osd::tile::container::save_to_bin_file::SaveToBinFiles;
use hd_fpv_osd_font_tool::osd::tile::container::uniq_tile_kind::TileKindError;
use hd_fpv_osd_font_tool::osd::tile::InvalidSizeError;
use hd_fpv_osd_font_tool::osd::tile::Kind;
use hd_fpv_osd_font_tool::osd::tile::Tile;

fn bin_tile(kind: Kind, seed: usize) -> Tile {
    let bytes: Vec<u8> = (0..kind.raw_rgba_size_bytes()).map(|i| ((i * 13 + seed * 7) % 256) as u8).collect();
    Tile::try_from(bytes).unwrap()
}

fn bin_content(kind: Kind, shift: usize) -> Vec<u8> {
    let mut data = Vec::new();
    for index in 0..256 {
        data.extend_from_slice(bin_tile(kind, index + shift).as_raw());
    }
    data
}

#[test]
fn bin_file_sizes() {
    assert_eq!(Kind::SD.bin_file_size_bytes(), 36 * 54 * 4 * 256);
    assert_eq!(Kind::HD.bin_file_size_bytes(), 24 * 36 * 4 * 256);
    assert_eq!(Kind::for_bin_file_size_bytes(1_990_656), Ok(Kind::SD));
    assert_eq!(Kind::for_bin_file_size_bytes(884_736), Ok(Kind::HD));
    assert_eq!(Kind::for_bin_file_size_bytes(7776), Err(InvalidSizeError(7776)));
    assert_eq!(Kind::for_bin_file_size_bytes(0), Err(InvalidSizeError(0)));
}

#[test]
fn bin_load_gives_the_tiles_in_order() {
    for kind in Kind::iter() {
        let tiles = bin_file::load("font.bin", Ok(bin_content(kind, 0))).unwrap();
        assert_eq!(tiles.len(), 256);
        for (index, tile) in tiles.iter().enumerate() {
            assert_eq!(tile.kind(), kind);
            assert_eq!(tile.as_raw(), bin_tile(kind, index).as_raw());
        }
    }
}

#[test]
fn bin_round_trip_is_identity() {
    for kind in Kind::iter() {
        let content = bin_content(kind, 3);
        let tiles = bin_file::load("font.bin", Ok(content.clone())).unwrap();
        assert_eq!(tiles.save_to_bin_file().unwrap(), content);
    }
}

#[test]
fn bin_load_errors() {
    match bin_file::load("a.bin", Ok(vec![0u8; 100])) {
        Err(LoadError::OpenError(OpenError::InvalidSizeError { file_path, size })) => {
            assert_eq!(file_path, "a.bin");
            assert_eq!(size, 100);
        },
        other => panic!("got {other:?}"),
    }
    let missing = bin_file::load("a.bin", Err(IOError::not_found()));
    match &missing {
        Err(error) => assert!(error.because_file_is_missing()),
        Ok(_) => panic!("did not get an error !"),
    }
    match bin_file::load("a.bin", Err(IOError::new(IOErrorKind::Other))) {
        Err(error) => {
            assert!(!error.because_file_is_missing());
            assert!(matches!(error, LoadError::OpenError(OpenError::FileError(e)) if e.kind() == IOErrorKind::Other));
        },
        Ok(_) => panic!("did not get an error !"),
    }
}

#[test]
fn bin_load_norm_checks_the_kind() {
    let tiles = bin_file::load_norm("dir", Kind::HD, &None, FontPart::Base, Ok(bin_content(Kind::HD, 0))).unwrap();
    assert_eq!(tiles.len(), 256);
    match bin_file::load_norm("dir", Kind::HD, &Some("x"), FontPart::Ext, Ok(bin_content(Kind::SD, 0))) {
        Err(LoadError::LoadedTileKindDoesNotMatchRequested { file_path, loaded, requested }) => {
            assert_eq!(file_path, "dir/font_x_hd_2.bin");
            assert_eq!(loaded, Kind::SD);
            assert_eq!(requested, Kind::HD);
        },
        other => panic!("got {other:?}"),
    }
    assert!(bin_file::load_base_norm("dir", Kind::SD, &None, Ok(bin_content(Kind::SD, 0))).is_ok());
}

#[test]
fn bin_load_extended() {
    let tiles = bin_file::load_extended("a.bin", "b.bin", Ok(bin_content(Kind::HD, 0)), Ok(bin_content(Kind::HD, 256))).unwrap();
    assert_eq!(tiles.len(), 512);
    for (index, tile) in tiles.iter().enumerate() {
        assert_eq!(tile.as_raw(), bin_tile(Kind::HD, index).as_raw());
    }
    match bin_file::load_extended("a.bin", "b.bin", Ok(bin_content(Kind::HD, 0)), Ok(bin_content(Kind::SD, 0))) {
        Err(LoadError::LoadedTileKindDoesNotMatchRequested { file_path, loaded, requested }) => {
            assert_eq!(file_path, "b.bin");
            assert_eq!(loaded, Kind::SD);
            assert_eq!(requested, Kind::HD);
        },
        other => panic!("got {other:?}"),
    }
    match bin_file::load_extended_check_kind("a.bin", "b.bin", Kind::SD, Ok(bin_content(Kind::HD, 0)), Err(IOError::not_found())) {
        Err(LoadError::LoadedTileKindDoesNotMatchRequested { file_path, .. }) => assert_eq!(file_path, "a.bin"),
        other => panic!("got {other:?}"),
    }
    match bin_file::load_extended_norm("d", Kind::SD, &None, Ok(bin_content(Kind::SD, 0)), Err(IOError::not_found())) {
        Err(error) => assert!(error.because_file_is_missing()),
        Ok(_) => panic!("did not get an error !"),
    }
}

#[test]
fn bin_normalized_names() {
    assert_eq!(bin_file::normalized_file_name(Kind::SD, &None, FontPart::Base), "font.bin");
    assert_eq!(bin_file::normalized_file_name(Kind::SD, &None, FontPart::Ext), "font_2.bin");
    assert_eq!(bin_file::normalized_file_name(Kind::HD, &None, FontPart::Base), "font_hd.bin");
    assert_eq!(bin_file::normalized_file_name(Kind::HD, &None, FontPart::Ext), "font_hd_2.bin");
    assert_eq!(bin_file::normalized_file_name(Kind::SD, &Some("ardu"), FontPart::Base), "font_ardu.bin");
    assert_eq!(bin_file::normalized_file_name(Kind::HD, &Some("ardu"), FontPart::Ext), "font_ardu_hd_2.bin");
    assert_eq!(bin_file::normalized_file_path("fonts", Kind::HD, &Some("ardu"), FontPart::Base), "fonts/font_ardu_hd.bin");
    assert_eq!(bin_file::normalized_file_path("", Kind::SD, &None, FontPart::Base), "font.bin");
}

#[test]
fn reader_reads_256_tiles_then_stops() {
    let mut reader = BinFileReader::open("font.bin", Ok(bin_content(Kind::SD, 0))).unwrap();
    assert_eq!(*reader.tile_kind(), Kind::SD);
    assert_eq!(reader.file_path(), "font.bin");
    for index in 0..256 {
        assert!(!reader.is_eof());
        assert_eq!(*reader.pos(), index);
        let tile = reader.read_tile().unwrap();
        assert_eq!(tile.as_raw(), bin_tile(Kind::SD, index).as_raw());
    }
    assert!(reader.is_eof());
    match reader.read_tile() {
        Err(error) => assert_eq!(error.kind(), IOErrorKind::UnexpectedEof),
        Ok(_) => panic!("read a tile past the end"),
    }
    assert_eq!(*reader.pos(), 256);
    let mut iterator = BinFileReader::open("font.bin", Ok(bin_content(Kind::HD, 0))).unwrap().into_iter();
    let mut count = 0;
    while let Some(tile) = iterator.next() {
        assert_eq!(tile.unwrap().as_raw(), bin_tile(Kind::HD, count).as_raw());
        count += 1;
    }
    assert_eq!(count, 256);
    assert!(iterator.next().is_none());
}

#[test]
fn reader_seek() {
    let mut reader = BinFileReader::open("font.bin", Ok(bin_content(Kind::HD, 0))).unwrap();
    assert_eq!(reader.seek(SeekFrom::Start(10)).unwrap(), 10);
    assert_eq!(reader.read_tile().unwrap().as_raw(), bin_tile(Kind::HD, 10).as_raw());
    assert_eq!(reader.seek(SeekFrom::Current(-1)).unwrap(), 10);
    assert_eq!(reader.seek(SeekFrom::Current(5)).unwrap(), 15);
    assert_eq!(reader.seek(SeekFrom::End(0)).unwrap(), 255);
    assert_eq!(reader.seek(SeekFrom::End(-255)).unwrap(), 0);
    assert_eq!(reader.seek_read_tile(SeekFrom::Start(255)).unwrap().as_raw(), bin_tile(Kind::HD, 255).as_raw());
    assert_eq!(*reader.pos(), 256);
    reader.rewind().unwrap();
    assert_eq!(*reader.pos(), 0);
    assert_eq!(Tile::read_from_bin_file(&mut reader).unwrap().as_raw(), bin_tile(Kind::HD, 0).as_raw());
    let tiles = reader.read_tiles().unwrap();
    assert_eq!(tiles.len(), 255);
    assert_eq!(tiles[0].as_raw(), bin_tile(Kind::HD, 1).as_raw());
}

#[test]
fn reader_seek_out_of_bounds() {
    let mut reader = BinFileReader::open("font.bin", Ok(bin_content(Kind::HD, 0))).unwrap();
    reader.seek(SeekFrom::Start(7)).unwrap();
    for (pos, expected) in [
        (SeekFrom::Start(256), 256isize),
        (SeekFrom::End(1), 256),
        (SeekFrom::End(-256), -1),
        (SeekFrom::Current(-8), -1),
        (SeekFrom::Current(249), 256),
        (SeekFrom::Current(isize::MAX), isize::MAX),
        (SeekFrom::Start(usize::MAX), isize::MAX),
    ] {
        match reader.seek(pos) {
            Err(SeekError::OutOfBoundsError { file_path, new_pos }) => {
                assert_eq!(file_path, "font.bin");
                assert_eq!(new_pos, expected);
            },
            other => panic!("got {other:?}"),
        }
        assert_eq!(*reader.pos(), 7);
    }
    assert!(matches!(
        reader.seek_read_tile(SeekFrom::Start(300)),
        Err(SeekReadError::SeekError(SeekError::OutOfBoundsError { new_pos: 300, .. }))
    ));
    let mut at_end = BinFileReader::open("font.bin", Ok(bin_content(Kind::HD, 0))).unwrap();
    at_end.seek(SeekFrom::Start(255)).unwrap();
    at_end.read_tile().unwrap();
    match Tile::read_from_bin_file(&mut at_end) {
        Err(hd_fpv_osd_font_tool::osd::tile::LoadError::FileError(error)) => {
            assert_eq!(error.path(), "font.bin");
            assert_eq!(error.error().kind(), IOErrorKind::UnexpectedEof);
        },
        other => panic!("got {other:?}"),
    }
}

#[test]
fn reader_open_errors() {
    assert!(matches!(
        BinFileReader::open("x", Ok(vec![0u8; 7776])),
        Err(OpenError::InvalidSizeError { size: 7776, .. })
    ));
    assert!(matches!(
        BinFileReader::open("x", Err(IOError::new(IOErrorKind::PermissionDenied))),
        Err(OpenError::FileError(e)) if e.kind() == IOErrorKind::PermissionDenied
    ));
}

#[test]
fn writer_keeps_the_kind_of_the_first_tile() {
    let mut writer = BinFileWriter::create();
    assert_eq!(writer.tile_kind(), None);
    writer.write_tile(&bin_tile(Kind::SD, 1)).unwrap();
    assert_eq!(writer.tile_kind(), Some(Kind::SD));
    match writer.write_tile(&bin_tile(Kind::HD, 2)) {
        Err(TileWriteError::TileKindMismatchError { written_kind, writing_kind }) => {
            assert_eq!(written_kind, Kind::SD);
            assert_eq!(writing_kind, Kind::HD);
        },
        other => panic!("got {other:?}"),
    }
    assert_eq!(writer.tile_kind(), Some(Kind::SD));
    assert_eq!(writer.tile_count(), 1);
    writer.write_tile(&bin_tile(Kind::SD, 3)).unwrap();
    assert_eq!(writer.tile_count(), 2);
}

#[test]
fn writer_takes_256_tiles() {
    let mut writer = BinFileWriter::create();
    for index in 0..256 {
        writer.write_tile(&bin_tile(Kind::HD, index)).unwrap();
    }
    assert!(matches!(writer.write_tile(&bin_tile(Kind::HD, 0)), Err(TileWriteError::MaximumTilesReached)));
    assert_eq!(writer.tile_count(), 256);
    assert_eq!(writer.finish().unwrap(), bin_content(Kind::HD, 0));
}

#[test]
fn writer_fill_and_finish() {
    let mut empty = BinFileWriter::create();
    assert!(matches!(empty.fill_remaining_space(), Err(FillRemainingSpaceError::Empty)));
    assert_eq!(empty.tile_count(), 0);
    let mut writer = BinFileWriter::create();
    writer.write_tile(&bin_tile(Kind::HD, 5)).unwrap();
    writer.write_tile(&bin_tile(Kind::HD, 6)).unwrap();
    let mut writer = match writer.finish() {
        Err(TileWriteError::NotEnoughTiles(writer)) => writer,
        other => panic!("got {other:?}"),
    };
    assert_eq!(writer.tile_count(), 2);
    writer.fill_remaining_space().unwrap();
    assert_eq!(writer.tile_count(), 256);
    let content = writer.finish().unwrap();
    assert_eq!(content.len(), Kind::HD.bin_file_size_bytes());
    assert_eq!(&content[0..3456], bin_tile(Kind::HD, 5).as_raw().as_slice());
    assert_eq!(&content[3456..6912], bin_tile(Kind::HD, 6).as_raw().as_slice());
    assert!(content[6912..].iter().all(|byte| *byte == 0));
}

#[test]
fn save_to_bin_file_pads_and_rejects() {
    let few: Vec<Tile> = (0..3).map(|index| bin_tile(Kind::SD, index)).collect();
    let content = few.save_to_bin_file().unwrap();
    assert_eq!(content.len(), Kind::SD.bin_file_size_bytes());
    assert_eq!(&content[7776..15552], bin_tile(Kind::SD, 1).as_raw().as_slice());
    assert!(content[3 * 7776..].iter().all(|byte| *byte == 0));
    let none: Vec<Tile> = Vec::new();
    assert!(matches!(none.save_to_bin_file(), Err(SaveTilesToBinFileError::TileKindError(TileKindError::EmptyContainer))));
    let mixed = vec![bin_tile(Kind::SD, 0), bin_tile(Kind::HD, 0)];
    assert!(matches!(mixed.save_to_bin_file(), Err(SaveTilesToBinFileError::TileKindError(TileKindError::MultipleTileKinds))));
    let many: Vec<Tile> = (0..257).map(|index| bin_tile(Kind::HD, index)).collect();
    assert!(matches!(
        many.save_to_bin_file(),
        Err(SaveTilesToBinFileError::TileWriteError(TileWriteError::MaximumTilesReached))
    ));
    let (path, content) = few.save_to_bin_file_norm("out", &Some("id"), FontPart::Ext).unwrap();
    assert_eq!(path, "out/font_id_2.bin");
    assert_eq!(content.len(), Kind::SD.bin_file_size_bytes());
}

#[test]
fn save_to_bin_files_splits_in_two() {
    let tiles: Vec<Tile> = (0..512).map(|index| bin_tile(Kind::HD, index)).collect();
    let (base, ext) = tiles.save_to_bin_files().unwrap();
    assert_eq!(base, bin_content(Kind::HD, 0));
    assert_eq!(ext, bin_content(Kind::HD, 256));
    let ((base_path, base), (ext_path, ext)) = tiles.save_to_bin_files_norm("d", &None).unwrap();
    assert_eq!(base_path, "d/font_hd.bin");
    assert_eq!(ext_path, "d/font_hd_2.bin");
    assert_eq!(base, bin_content(Kind::HD, 0));
    assert_eq!(ext, bin_content(Kind::HD, 256));
}
