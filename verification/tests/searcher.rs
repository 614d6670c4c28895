use book_searcher_core::searcher::{
    compressor_of, recover_open, Compressor, CreateIndexConfig, CreateIndexError, OpenFailure,
    OpenRecovery, Searcher,
};

#[test]
fn compressors_by_name() {
    assert_eq!(compressor_of("none"), Some(Compressor::Uncompressed));
    assert_eq!(compressor_of("lz4"), Some(Compressor::Lz4));
    assert_eq!(compressor_of("brotli"), Some(Compressor::Brotli));
    assert_eq!(compressor_of("snappy"), Some(Compressor::Snappy));
    assert_eq!(compressor_of("zstd"), Some(Compressor::Zstd));
    assert_eq!(compressor_of("zstd(level=3)"), Some(Compressor::Zstd));
    assert_eq!(compressor_of(""), None);
    assert_eq!(compressor_of("zst"), None);
    assert_eq!(compressor_of("None"), None);
    assert_eq!(compressor_of(" lz4"), None);
    assert_eq!(compressor_of("gzip"), None);
}

#[test]
fn new_searcher_compresses_with_brotli() {
    let s = Searcher::new(false, Vec::new());
    assert_eq!(s.compressor, Compressor::Brotli);
}

#[test]
fn set_compressor_takes_known_names_only() {
    let mut s = Searcher::new(false, Vec::new());
    assert!(s.set_compressor("lz4"));
    assert_eq!(s.compressor, Compressor::Lz4);
    assert!(!s.set_compressor("lzma"));
    assert_eq!(s.compressor, Compressor::Lz4);
    assert!(s.set_compressor("zstd-19"));
    assert_eq!(s.compressor, Compressor::Zstd);
}

#[test]
fn missing_index_is_created() {
    assert_eq!(recover_open(OpenFailure::Directory), OpenRecovery::Create);
    assert_eq!(recover_open(OpenFailure::Read), OpenRecovery::Create);
    assert_eq!(recover_open(OpenFailure::Other), OpenRecovery::Abort);
}

#[test]
fn create_index_without_compressor_means_none() {
    let mut s = Searcher::new(false, Vec::new());
    let config = CreateIndexConfig { raw_files: vec!["books.csv".to_string()], compressor: String::new() };
    assert_eq!(config.apply(&mut s), Ok(()));
    assert_eq!(s.compressor, Compressor::Uncompressed);
}

#[test]
fn create_index_without_files_is_refused_after_the_compressor_is_set() {
    let mut s = Searcher::new(false, Vec::new());
    let config = CreateIndexConfig { raw_files: Vec::new(), compressor: "snappy".to_string() };
    assert_eq!(config.apply(&mut s), Err(CreateIndexError::MissingFile));
    assert_eq!(s.compressor, Compressor::Snappy);
    assert_eq!(CreateIndexError::MissingFile.message(), "csv file is missing!");
}

#[test]
fn create_index_with_unknown_compressor_changes_nothing() {
    let mut s = Searcher::new(false, Vec::new());
    let config = CreateIndexConfig { raw_files: vec!["a.csv".to_string()], compressor: "rar".to_string() };
    assert_eq!(config.apply(&mut s), Err(CreateIndexError::UnknownCompressor));
    assert_eq!(s.compressor, Compressor::Brotli);
    assert_eq!(CreateIndexError::UnknownCompressor.message(), "compressor not valid");
}
