use ftp_storage::error::Error;
use ftp_storage::fileinfo::Fileinfo;
use ftp_storage::filesystem::{on_disk, Filesystem, OnDisk};
use ftp_storage::listing::list_fmt;
use ftp_storage::metadata::{FileStat, Metadata, QueryError, Timestamp};
use std::io::{Read, Write};
use std::path::Path;
use std::time::{SystemTime, UNIX_EPOCH};

fn timestamp(time: std::io::Result<SystemTime>) -> Result<Timestamp, QueryError> {
    let since = time
        .ok()
        .and_then(|t| t.duration_since(UNIX_EPOCH).ok())
        .ok_or(QueryError::Unavailable)?;
    Timestamp::after_epoch(since.as_secs(), since.subsec_nanos()).ok_or(QueryError::Unavailable)
}

fn stat_of(path: &Path) -> std::io::Result<FileStat> {
    let meta = path.metadata()?;
    Ok(FileStat {
        len: meta.len(),
        is_dir: meta.is_dir(),
        is_file: meta.is_file(),
        modified: timestamp(meta.modified()),
        uid: 0,
        gid: 0,
    })
}

fn text(path: std::io::Result<std::path::PathBuf>) -> Option<String> {
    path.ok().map(|p| p.to_str().unwrap().to_string())
}

fn probe(lexical: &str) -> OnDisk {
    on_disk(
        text(Path::new(lexical).canonicalize()),
        Path::new(lexical).symlink_metadata().is_ok(),
        text(Path::new(&ftp_storage::path::parent(lexical)).canonicalize()),
    )
}

fn list(fs: &Filesystem, path: &str) -> Result<Vec<Fileinfo<FileStat>>, Error> {
    let held = match fs.lexical_path(path) {
        Ok(lexical) => probe(&lexical),
        Err(_) => OnDisk::Unresolved,
    };
    let found = match fs.full_path(path, held.clone()) {
        Ok(dir) => enumerate(&dir),
        Err(_) => Vec::new(),
    };
    fs.list(path, held, found)
}

fn backend(root: &Path) -> Filesystem {
    Filesystem::new(root.canonicalize().unwrap().to_str().unwrap())
}

fn resolve(fs: &Filesystem, path: &str) -> Result<String, Error> {
    let lexical = fs.lexical_path(path)?;
    fs.full_path(path, probe(&lexical))
}

fn enumerate(dir: &str) -> Vec<(String, std::io::Result<FileStat>)> {
    Path::new(dir)
        .read_dir()
        .unwrap()
        .map(|entry| {
            let path = entry.unwrap().path();
            (path.to_str().unwrap().to_string(), stat_of(&path))
        })
        .collect()
}

#[test]
fn fs_stat() {
    let root = tempfile::tempdir().unwrap();

    let file = tempfile::NamedTempFile::new_in(root.path()).unwrap();
    let path = file.path();
    let meta = file.as_file().metadata().unwrap();

    let fs = backend(root.path());

    let filename = path.file_name().unwrap().to_str().unwrap();
    let resolved = resolve(&fs, filename).unwrap();
    let my_meta = stat_of(Path::new(&resolved)).unwrap();

    assert_eq!(meta.is_dir(), my_meta.is_dir());
    assert_eq!(meta.is_file(), my_meta.is_file());
    assert_eq!(meta.len(), my_meta.len());
    assert_eq!(timestamp(meta.modified()).unwrap(), my_meta.modified().unwrap());
}

#[test]
fn fs_list() {
    let root = tempfile::tempdir().unwrap();
    let file = tempfile::NamedTempFile::new_in(root.path()).unwrap();
    let path = file.path();
    let relpath = path.strip_prefix(root.path()).unwrap();
    let meta = file.as_file().metadata().unwrap();

    let fs = backend(root.path());

    let my_list = list(&fs, "/").unwrap();

    assert_eq!(my_list.len(), 1);

    let my_fileinfo = &my_list[0];
    assert_eq!(Path::new(&my_fileinfo.path), relpath);
    assert_eq!(my_fileinfo.metadata.is_dir(), meta.is_dir());
    assert_eq!(my_fileinfo.metadata.is_file(), meta.is_file());
    assert_eq!(my_fileinfo.metadata.len(), meta.len());
    assert_eq!(my_fileinfo.metadata.modified().unwrap(), timestamp(meta.modified()).unwrap());
}

#[test]
fn fs_list_fmt() {
    let root = tempfile::tempdir().unwrap();
    let file = tempfile::NamedTempFile::new_in(root.path()).unwrap();
    let path = file.path();
    let relpath = path.strip_prefix(root.path()).unwrap();

    let fs = backend(root.path());

    let my_list = list_fmt(&list(&fs, "/").unwrap());

    let my_list = std::string::String::from_utf8(my_list).unwrap();

    assert!(my_list.contains(relpath.to_str().unwrap()));
}

#[test]
fn fs_get() {
    let root = tempfile::tempdir().unwrap();

    let mut file = tempfile::NamedTempFile::new_in(root.path()).unwrap();
    let path = file.path().to_owned();

    let data = b"Koen was here\n";
    file.write_all(data).unwrap();

    let filename = path.file_name().unwrap().to_str().unwrap();
    let fs = backend(root.path());

    let resolved = resolve(&fs, filename).unwrap();
    assert_eq!(Path::new(&resolved), path.canonicalize().unwrap());
    let mut my_file = file.reopen().unwrap();
    let mut my_content = Vec::new();
    my_file.read_to_end(&mut my_content).unwrap();
    assert_eq!(data.as_ref(), &*my_content);
}

#[test]
fn fs_put() {
    let root = tempfile::tempdir().unwrap();
    let orig_content = b"hallo";
    let fs = backend(root.path());

    let resolved = resolve(&fs, "greeting.txt").expect("Failed to `put` file");
    let target = Path::new(&resolved);
    assert_eq!(target, root.path().canonicalize().unwrap().join("greeting.txt"));
    let mut created = tempfile::Builder::new()
        .prefix(target.file_name().unwrap())
        .rand_bytes(0)
        .tempfile_in(target.parent().unwrap())
        .unwrap();
    created.write_all(orig_content).unwrap();

    let mut written_content = Vec::new();
    let mut f = created.reopen().unwrap();
    f.read_to_end(&mut written_content).unwrap();

    assert_eq!(orig_content, written_content.as_slice());
    assert_eq!(stat_of(target).unwrap().len(), 5);
    assert!(stat_of(target).unwrap().is_file());
}

#[test]
fn fs_mkd() {
    let root = tempfile::tempdir().unwrap();
    let fs = backend(root.path());
    let new_dir_name = "bla";

    let resolved = resolve(&fs, new_dir_name).expect("Failed to mkd");
    let target = Path::new(&resolved);
    let _made = tempfile::Builder::new()
        .prefix(target.file_name().unwrap())
        .rand_bytes(0)
        .tempdir_in(target.parent().unwrap())
        .unwrap();

    let full_path = root.path().join(new_dir_name);
    let metadata = full_path.metadata().unwrap();
    assert!(metadata.is_dir());
}

#[test]
fn fs_rename() {
    let root = tempfile::tempdir().unwrap();
    let file = tempfile::NamedTempFile::new_in(root.path()).unwrap();
    let old_filename = file.path().file_name().unwrap().to_str().unwrap().to_string();
    let new_filename = "hello.txt";

    let fs = backend(root.path());
    let from = resolve(&fs, &old_filename).expect("Failed to rename");
    let to = resolve(&fs, new_filename).expect("Failed to rename");
    Filesystem::check_rename(stat_of(Path::new(&from))).expect("Failed to rename");
    file.persist(&to).expect("Failed to rename");

    let new_full_path = root.path().join(new_filename);
    assert!(new_full_path.metadata().expect("new filename not found").is_file());

    let old_full_path = root.path().join(old_filename);
    old_full_path.metadata().expect_err("Old filename should not exists anymore");
}

#[test]
fn rename_of_a_real_directory_is_refused() {
    let root = tempfile::tempdir().unwrap();
    let sub = tempfile::tempdir_in(root.path()).unwrap();
    let name = sub.path().file_name().unwrap().to_str().unwrap();

    let fs = backend(root.path());
    let from = resolve(&fs, name).unwrap();
    assert_eq!(Filesystem::check_rename(stat_of(Path::new(&from))), Err(Error::IOError));
}

#[test]
fn rename_of_a_missing_file_is_refused() {
    let root = tempfile::tempdir().unwrap();
    let fs = backend(root.path());
    let from = resolve(&fs, "nothing-here").unwrap();
    assert_eq!(Filesystem::check_rename(stat_of(Path::new(&from))), Err(Error::IOError));
}

#[test]
fn list_of_a_real_directory_with_three_files() {
    let root = tempfile::tempdir().unwrap();
    let mut kept = Vec::new();
    for name in ["a", "b", "c"] {
        kept.push(
            tempfile::Builder::new().prefix(name).rand_bytes(0).tempfile_in(root.path()).unwrap(),
        );
    }

    let fs = backend(root.path());
    let entries = list(&fs, "").unwrap();

    let mut paths: Vec<String> = entries.iter().map(|e| e.path.clone()).collect();
    paths.sort();
    assert_eq!(paths, vec!["a", "b", "c"]);
    assert!(entries.iter().all(|e| e.metadata.is_file() && e.metadata.is_empty()));
}

#[test]
fn list_of_a_subdirectory_is_relative_to_the_root() {
    let root = tempfile::tempdir().unwrap();
    let sub = tempfile::Builder::new().prefix("sub").rand_bytes(0).tempdir_in(root.path()).unwrap();
    let _file =
        tempfile::Builder::new().prefix("f.txt").rand_bytes(0).tempfile_in(sub.path()).unwrap();

    let fs = backend(root.path());
    let entries = list(&fs, "/sub").unwrap();

    assert_eq!(entries.len(), 1);
    assert_eq!(entries[0].path, "sub/f.txt");
}

#[test]
fn resolve_of_a_missing_directory_is_a_path_error() {
    let root = tempfile::tempdir().unwrap();
    let fs = backend(root.path());
    assert_eq!(resolve(&fs, "no/such/dir/file.txt"), Err(Error::PathError));
    assert_eq!(resolve(&fs, "no/file.txt"), Err(Error::PathError));
}

#[test]
fn resolve_of_a_new_name_in_an_existing_directory() {
    let root = tempfile::tempdir().unwrap();
    let fs = backend(root.path());
    let expected = root.path().canonicalize().unwrap().join("new.txt");
    assert_eq!(resolve(&fs, "new.txt"), Ok(expected.to_str().unwrap().to_string()));
    assert_eq!(resolve(&fs, "/new.txt"), Ok(expected.to_str().unwrap().to_string()));
}

#[test]
fn resolve_of_the_root_itself() {
    let root = tempfile::tempdir().unwrap();
    let fs = backend(root.path());
    let expected = root.path().canonicalize().unwrap();
    assert_eq!(resolve(&fs, "/"), Ok(expected.to_str().unwrap().to_string()));
    assert_eq!(resolve(&fs, ""), Ok(expected.to_str().unwrap().to_string()));
}

#[test]
fn resolve_refuses_to_leave_the_root() {
    let root = tempfile::tempdir().unwrap();
    let fs = backend(root.path());
    assert_eq!(resolve(&fs, ".."), Err(Error::PathError));
    assert_eq!(resolve(&fs, "../../etc/passwd"), Err(Error::PathError));
    assert_eq!(resolve(&fs, "a/../../x"), Err(Error::PathError));
}

#[test]
fn resolve_of_a_sibling_with_a_longer_name_is_a_path_error() {
    let outer = tempfile::tempdir().unwrap();
    let root = tempfile::Builder::new().prefix("ftp").rand_bytes(0).tempdir_in(outer.path()).unwrap();
    let _sibling =
        tempfile::Builder::new().prefix("ftpx").rand_bytes(0).tempdir_in(outer.path()).unwrap();
    let fs = backend(root.path());
    assert_eq!(resolve(&fs, "../ftpx"), Err(Error::PathError));
    assert_eq!(resolve(&fs, "../ftp"), Ok(fs.root().to_string()));
}

#[test]
fn list_refuses_to_leave_the_root() {
    let outer = tempfile::tempdir().unwrap();
    let root = tempfile::Builder::new().prefix("ftp").rand_bytes(0).tempdir_in(outer.path()).unwrap();
    let other =
        tempfile::Builder::new().prefix("other").rand_bytes(0).tempdir_in(outer.path()).unwrap();
    let _secret =
        tempfile::Builder::new().prefix("secret").rand_bytes(0).tempfile_in(other.path()).unwrap();
    let fs = backend(root.path());
    assert!(matches!(list(&fs, ".."), Err(Error::PathError)));
    assert!(matches!(list(&fs, "../other"), Err(Error::PathError)));
    assert!(matches!(list(&fs, "/../other"), Err(Error::PathError)));
    assert!(matches!(list(&fs, "a/../../other"), Err(Error::PathError)));
    assert!(list(&fs, "/").unwrap().is_empty());
}

#[test]
fn list_of_a_missing_directory_is_a_path_error() {
    let root = tempfile::tempdir().unwrap();
    let fs = backend(root.path());
    assert!(matches!(list(&fs, "no/such/dir"), Err(Error::PathError)));
}

#[test]
fn full_path_refuses_a_real_link_out_of_the_root() {
    let process = Path::new("/proc/self");
    let link = process.join("cwd");
    if !link.symlink_metadata().map(|m| m.file_type().is_symlink()).unwrap_or(false) {
        return;
    }
    let fs = backend(process);
    let lexical = fs.lexical_path("cwd").unwrap();
    assert_eq!(lexical, format!("{}/cwd", fs.root()));
    let held = probe(&lexical);
    assert!(matches!(held, OnDisk::Existing(_)));
    assert_eq!(fs.full_path("cwd", held), Err(Error::PathError));
    assert_eq!(resolve(&fs, "cwd"), Err(Error::PathError));
    assert_eq!(resolve(&fs, "/cwd/"), Err(Error::PathError));
    assert!(matches!(list(&fs, "cwd"), Err(Error::PathError)));
    assert_eq!(resolve(&fs, "status"), Ok(format!("{}/status", fs.root())));
}
