use fshasher::entry::{Filter, FilterAccepted, PatternFilter, PatternFilterAccepted};
use fshasher::reader::md::Md;
use fshasher::{Entry, PathKind, Reader};

fn sample_files(exts: &[&str]) -> Vec<String> {
    let mut files = Vec::new();
    let mut next = 0;
    for folder in 0..9 {
        for _ in 0..3 {
            let ext = exts[next % exts.len()];
            files.push(format!("/tmp/root/folder_{folder}/file_{next}.{ext}"));
            next += 1;
        }
    }
    files
}

fn extension(path: &str) -> &str {
    path.rsplit('.').next().unwrap()
}

#[test]
fn filters() {
    let files = sample_files(&["aaa", "bbb", "ccc"]);
    let aaa: FilterAccepted = Filter::Files("*.aaa".to_string()).accept().unwrap();
    for p in files.iter() {
        if extension(p) == "aaa" {
            assert!(aaa.filtered(p, PathKind::File).unwrap());
        } else {
            assert!(!aaa.filtered(p, PathKind::File).unwrap());
        }
    }
}

#[test]
fn patterns() {
    let files = sample_files(&["aaa", "bbb", "ccc"]);
    let aaa: PatternFilterAccepted = PatternFilter::Accept("*.aaa".to_string()).accept().unwrap();
    for p in files.iter() {
        if extension(p) == "aaa" {
            assert!(aaa.filtered(p));
        } else {
            assert!(!aaa.filtered(p));
        }
    }
    let ddd: PatternFilterAccepted = PatternFilter::Accept("*.ddd".to_string()).accept().unwrap();
    for p in files.iter() {
        assert!(!ddd.filtered(p));
    }
    let ccc: PatternFilterAccepted = PatternFilter::Ignore("*.ccc".to_string()).accept().unwrap();
    for p in files.iter() {
        if extension(p) == "ccc" {
            assert!(!ccc.filtered(p));
        } else {
            assert!(ccc.filtered(p));
        }
    }
}

#[test]
fn md_reader_hands_out_metadata_once() {
    let mut reader = Md::new(0x0102_0304_0506_0708_090a_0b0c_0d0e_0f10, 0x1112_1314_1516_1718);
    let mut buffer = [0u8; 32];
    assert_eq!(reader.read(&mut buffer).unwrap(), 24);
    let expected: Vec<u8> = (1..=24).collect();
    assert_eq!(&buffer[..24], expected.as_slice());
    assert_eq!(reader.read(&mut buffer).unwrap(), 0);
    assert_eq!(
        reader.mmap().unwrap_err(),
        "Md reader doesn't support mapping file into memory"
    );
}

#[test]
fn entry_needs_an_absolute_folder() {
    assert!(Entry::from("relative/path", true).is_err());
    assert!(Entry::from("/absolute/file", false).is_err());
    assert!(Entry::from("/absolute/folder", true).is_ok());
}

#[test]
fn md_reader_needs_room() {
    let mut reader = Md::new(1, 2);
    let mut small = [0u8; 23];
    let refused = reader.read(&mut small).unwrap_err();
    assert_eq!(refused.kind(), std::io::ErrorKind::Other);
    assert_eq!(small, [0u8; 23]);
    let mut buffer = [0u8; 24];
    assert_eq!(reader.read(&mut buffer).unwrap(), 0);
    let mut exact = Md::new(1, 2);
    assert_eq!(exact.read(&mut buffer).unwrap(), 24);
    assert_eq!(buffer[15], 1);
    assert_eq!(buffer[23], 2);
    assert_eq!(buffer.iter().map(|b| *b as usize).sum::<usize>(), 3);
}
