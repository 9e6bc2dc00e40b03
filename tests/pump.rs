use numpty::pump::{launch_outcome, read_step, window_size, ExecError, ReadStep, WinSize, WriteBuffer, WriteStep};

#[test]
fn empty_report_means_launched() {
    assert!(launch_outcome(String::new()).is_ok());
}

#[test]
fn report_is_the_launch_error() {
    let e = launch_outcome("ENOENT: No such file or directory".to_string()).unwrap_err();
    assert_eq!(e.message(), "ENOENT: No such file or directory");
    assert_eq!(e.to_string(), "ExecError: ENOENT: No such file or directory");
    assert_eq!(ExecError::new("x".to_string()).to_string(), "ExecError: x");
}

#[test]
fn window_sizes() {
    assert_eq!(window_size(80, 24), Some(WinSize { cols: 80, rows: 24 }));
    assert_eq!(window_size(65535, 1), Some(WinSize { cols: 65535, rows: 1 }));
    assert_eq!(window_size(65536, 24), None);
}

#[test]
fn read_results() {
    assert_eq!(read_step(Some(0)), ReadStep::End);
    assert_eq!(read_step(Some(12)), ReadStep::Forward(12));
    assert_eq!(read_step(None), ReadStep::Drained);
}

#[test]
fn partial_writes_keep_the_rest() {
    let mut b = WriteBuffer::new();
    assert!(!b.wants_write());
    b.push(b"hello".to_vec());
    b.push(b" world".to_vec());
    assert_eq!(b.pending, b"hello world".to_vec());
    assert_eq!(b.written(Some(3)), WriteStep::Again);
    assert_eq!(b.pending, b"lo world".to_vec());
    assert_eq!(b.written(None), WriteStep::Blocked);
    assert_eq!(b.pending, b"lo world".to_vec());
    assert_eq!(b.written(Some(8)), WriteStep::Done);
    assert!(!b.wants_write());
    b.push(b"x".to_vec());
    assert_eq!(b.written(Some(0)), WriteStep::End);
    assert_eq!(b.pending, b"x".to_vec());
}
