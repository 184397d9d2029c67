use amibuf::bytes::BytesHandler;

#[test]
fn create_vec() {
    let mut tmp = BytesHandler::new();

    let aux = [2u8; 1000];
    tmp.extend(&aux).unwrap();
    assert_eq!(aux.len(), tmp.len())
}

#[test]
fn new_vec() {
    let mut tmp = BytesHandler::new();

    let aux = [5u8; 5];
    tmp.extend(&aux).unwrap();
    assert_eq!([5, 5, 5, 5, 5], tmp.as_slice())
}

#[test]
fn new_vec_multi_ext() {
    let mut tmp = BytesHandler::new();

    let aux = [5u8; 5];
    tmp.extend(&aux).unwrap();

    let aux = [2u8; 2];
    tmp.extend(&aux).unwrap();

    let aux = [3u8; 3];
    tmp.extend(&aux).unwrap();

    let aux = [4u8; 4];
    tmp.extend(&aux).unwrap();

    assert_eq!([5, 5, 5, 5, 5, 2, 2, 3, 3, 3, 4, 4, 4, 4], tmp.as_slice())
}

#[test]
fn drain() {
    let mut tmp: BytesHandler = BytesHandler::new();

    let aux = [0u8; 100];
    tmp.extend(&aux).unwrap();

    let _aux = tmp.drain_to(50).unwrap();
    let tmp = [0u8; 50];
    assert_eq!(tmp, tmp.as_ref())
}

#[test]
fn drain_length() {
    let mut tmp: BytesHandler = BytesHandler::new();

    let aux = [0u8; 100];
    tmp.extend(&aux).unwrap();

    let aux = tmp.drain_to(50).unwrap();
    let tmp = [0u8; 50];
    assert_eq!(50, aux.len());
    assert_eq!(50, tmp.len());
}

#[test]
fn drain_cap() {
    let mut tmp: BytesHandler = BytesHandler::new();

    let aux = [0u8; 100];
    tmp.extend(&aux).unwrap();

    let aux = tmp.drain_to(50).unwrap();

    assert_eq!(512, aux.cap());
    assert_eq!(512, tmp.cap());
}

#[test]
fn drain_cap_2() {
    let mut tmp: BytesHandler = BytesHandler::new();

    let aux = [0u8; 1500];
    tmp.extend(&aux).unwrap();

    assert_eq!(1536, tmp.cap());
}

#[test]
fn drain_cap_2_512() {
    let mut tmp: BytesHandler = BytesHandler::new();

    let aux = [0u8; 512];
    tmp.extend(&aux).unwrap();
    assert_eq!(512, tmp.cap());
}

#[test]
fn drain_cap_2_513() {
    let mut tmp: BytesHandler = BytesHandler::new();

    let aux = [0u8; 1024];
    tmp.extend(&aux).unwrap();

    assert_eq!(1024, tmp.cap());
}

#[test]
fn drain_cap_2_4096() {
    let mut tmp: BytesHandler = BytesHandler::new();

    let aux = [0u8; 4096];
    tmp.extend(&aux).unwrap();

    assert_eq!(4096, tmp.cap());
    assert_eq!(aux.len(), tmp.cap());
}

#[test]
fn drain_cap_debug_1() {
    let mut tmp: BytesHandler = BytesHandler::new();

    let aux = [0u8; 5];
    tmp.extend(&aux).unwrap();

    assert_eq!(aux, tmp.as_slice());
}

#[test]
fn drain_cap_debug_2() {
    let mut tmp: BytesHandler = BytesHandler::new();

    let aux = [0u8; 8196];
    tmp.extend(&aux).unwrap();

    assert_eq!(aux, tmp.as_slice());
}

#[test]
fn drain_cap_ref() {
    let mut tmp: BytesHandler = BytesHandler::new();

    let aux = [1, 2, 3, 4, 5, 6, 7, 8, 9, 10, 11];
    tmp.extend(&aux).unwrap();

    assert_eq!(aux[2], tmp.get(2).unwrap());
}

#[test]
fn drain_cap_range_to() {
    let mut tmp: BytesHandler = BytesHandler::new();

    let aux = [1, 2, 3, 4, 5, 6, 7, 8, 9, 10, 11];
    tmp.extend(&aux).unwrap();

    assert_eq!(&aux[..3], tmp.range_to(3));
}

#[test]
fn drain_cap_range_from() {
    let mut tmp: BytesHandler = BytesHandler::new();

    let aux = [1, 2, 3, 4, 5, 6, 7, 8, 9, 10, 11];
    tmp.extend(&aux).unwrap();
    assert_eq!(11, tmp.len());
    assert_eq!(&aux[2..], tmp.range_from(2).unwrap());
}

#[test]
fn drain_cap_range_full() {
    let mut tmp: BytesHandler = BytesHandler::new();

    let aux = [1, 2, 3, 4, 5, 6, 7, 8, 9, 10, 11];
    tmp.extend(&aux).unwrap();
    assert_eq!(11, tmp.len());
    assert_eq!(&aux[..], tmp.range_full());
}
