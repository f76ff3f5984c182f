use multitap::Multitap;

#[test]
pub fn readhead_with_delay_output_equals_write_head() {
    let mut multitap = Multitap::<f32, 3>::new().unwrap();
    let mut writehead = multitap.as_writehead().unwrap();

    writehead.push(&mut multitap, 1.0);
    writehead.push(&mut multitap, 2.0);
    writehead.push(&mut multitap, 3.0);

    {
        let mut readhead = multitap.as_readhead(0);
        assert_eq!(readhead.next(&multitap).unwrap(), 1.0);
        assert_eq!(readhead.next(&multitap).unwrap(), 2.0);
        assert_eq!(readhead.next(&multitap).unwrap(), 3.0);
    }

    {
        let mut readhead = multitap.as_readhead(1);
        assert_eq!(readhead.next(&multitap).unwrap(), 3.0);
        assert_eq!(readhead.next(&multitap).unwrap(), 1.0);
        assert_eq!(readhead.next(&multitap).unwrap(), 2.0);
    }

    {
        let mut readhead = multitap.as_readhead(2);
        assert_eq!(readhead.next(&multitap).unwrap(), 2.0);
        assert_eq!(readhead.next(&multitap).unwrap(), 3.0);
        assert_eq!(readhead.next(&multitap).unwrap(), 1.0);
    }
}

#[test]
pub fn multiple_readhead_with_delay_output_equals_write_head() {
    let mut multitap = Multitap::<f32, 5>::new().unwrap();
    let mut writehead = multitap.as_writehead().unwrap();

    writehead.push(&mut multitap, 1.0);
    for n in 0..4 {
        let mut readhead_1 = multitap.as_readhead(n);
        let mut readhead_2 = multitap.as_readhead(n + 1);
        for j in 0..4 {
            let val_1 = readhead_1.next(&multitap).unwrap();
            let val_2 = readhead_2.next(&multitap).unwrap();
            if j == n {
                assert_eq!(val_1, 1.0)
            }
            if j == (n + 1) {
                assert_eq!(val_2, 1.0)
            }
        }
    }
}

#[test]
pub fn readhead_is_circular() {
    let mut multitap = Multitap::<f32, 3>::new().unwrap();
    let mut writehead = multitap.as_writehead().unwrap();

    writehead.push(&mut multitap, 1.0);

    let mut readhead = multitap.as_readhead(0);

    assert_eq!(readhead.next(&multitap).unwrap(), 1.0);
    assert_eq!(readhead.next(&multitap).unwrap(), 0.0);
    assert_eq!(readhead.next(&multitap).unwrap(), 0.0);
    assert_eq!(readhead.next(&multitap).unwrap(), 1.0);
}

#[test]
pub fn readhead_index_operator() {
    let mut multitap = Multitap::<f32, 3>::new().unwrap();
    let mut writehead = multitap.as_writehead().unwrap();

    writehead.push(&mut multitap, 0.);
    writehead.push(&mut multitap, 1.);
    writehead.push(&mut multitap, 2.);

    let readhead = multitap.as_readhead(1);
    assert_eq!(*readhead.index(&multitap, 0), 2.);
    assert_eq!(*readhead.index(&multitap, 1), 0.);
    assert_eq!(*readhead.index(&multitap, 2), 1.);
}

#[test]
pub fn readhead_index_operator_is_circular() {
    let mut multitap = Multitap::<f32, 3>::new().unwrap();
    let mut writehead = multitap.as_writehead().unwrap();

    writehead.push(&mut multitap, 0.0);
    writehead.push(&mut multitap, 1.0);
    writehead.push(&mut multitap, 2.0);

    let readhead = multitap.as_readhead(1);
    assert_eq!(*readhead.index(&multitap, 0), 2.0);
    assert_eq!(*readhead.index(&multitap, 1), 0.0);
    assert_eq!(*readhead.index(&multitap, 2), 1.0);
    assert_eq!(*readhead.index(&multitap, 3), 2.0);
    assert_eq!(*readhead.index(&multitap, 4), 0.0);
    assert_eq!(*readhead.index(&multitap, 5), 1.0);
    assert_eq!(*readhead.index(&multitap, 6), 2.0);
}

#[test]
pub fn readhead_seak_is_cyclical() {
    let mut multitap = Multitap::<f32, 3>::new().unwrap();
    let mut writehead = multitap.as_writehead().unwrap();

    writehead.push(&mut multitap, 0.0);
    writehead.push(&mut multitap, 1.0);
    writehead.push(&mut multitap, 2.0);

    let mut readhead = multitap.as_readhead(0);
    readhead.seek(3);
    assert_eq!(readhead.next(&multitap).unwrap(), 0.0);
}

#[test]
pub fn writehead_is_circular() {
    let mut multitap = Multitap::<f32, 2>::new().unwrap();
    let mut writehead = multitap.as_writehead().unwrap();

    writehead.push(&mut multitap, 1.0);
    writehead.push(&mut multitap, 2.0);
    writehead.push(&mut multitap, 3.0); // wraps around

    let mut readhead = multitap.as_readhead(0);

    assert_eq!(readhead.next(&multitap).unwrap(), 3.0);
    assert_eq!(readhead.next(&multitap).unwrap(), 2.0);
}

#[test]
pub fn writehead_index_operator() {
    let mut multitap = Multitap::<f32, 5>::new().unwrap();
    let writehead = multitap.as_writehead().unwrap();

    for n in 0..4 {
        *writehead.index_mut(&mut multitap, n) = n as f32;
    }

    let mut readhead = multitap.as_readhead(0);
    for n in 0..4 {
        assert_eq!(readhead.next(&multitap).unwrap(), n as f32);
    }
}

#[test]
pub fn writehead_index_operator_is_circular() {
    let mut multitap = Multitap::<f32, 2>::new().unwrap();
    let writehead = multitap.as_writehead().unwrap();

    *writehead.index_mut(&mut multitap, 0) = 0.0;
    *writehead.index_mut(&mut multitap, 1) = 1.0;
    *writehead.index_mut(&mut multitap, 2) = 2.0;
    *writehead.index_mut(&mut multitap, 3) = 3.0;

    let mut readhead = multitap.as_readhead(0);
    assert_eq!(readhead.next(&multitap).unwrap(), 2.0);
    assert_eq!(readhead.next(&multitap).unwrap(), 3.0);
}

#[test]
pub fn moved_writehead_is_valid() {
    let mut multitap = Multitap::<f32, 2>::new().unwrap();
    let writehead = multitap.as_writehead().unwrap();

    *writehead.index_mut(&mut multitap, 0) = 9.0;
    *writehead.index_mut(&mut multitap, 1) = 8.0;

    let mut readhead = multitap.as_readhead(0);

    let storage = &mut multitap;
    (move || {
        *writehead.index_mut(storage, 0) = 0.0;
        *writehead.index_mut(storage, 1) = 1.0;
    })();

    assert_eq!(readhead.next(&multitap).unwrap(), 0.0);
    assert_eq!(readhead.next(&multitap).unwrap(), 1.0);
}

#[test]
pub fn from_external_buffer() {
    let array: [f32; 3] = [0.; 3];
    let mut multitap = Multitap::try_from(array).unwrap();

    let writehead = multitap.as_writehead().unwrap();

    *writehead.index_mut(&mut multitap, 0) = 1.0;
    *writehead.index_mut(&mut multitap, 1) = 2.0;
    *writehead.index_mut(&mut multitap, 2) = 3.0;

    let mut readhead = multitap.as_readhead(0);

    assert_eq!(readhead.next(&multitap).unwrap(), 1.0);
    assert_eq!(readhead.next(&multitap).unwrap(), 2.0);
    assert_eq!(readhead.next(&multitap).unwrap(), 3.0);
}

#[test]
pub fn external_buffer_into() {
    let array: [f32; 3] = [0.; 3];
    let mut multitap: Multitap<f32, 3> = array.try_into().unwrap();

    let writehead = multitap.as_writehead().unwrap();

    *writehead.index_mut(&mut multitap, 0) = 1.0;
    *writehead.index_mut(&mut multitap, 1) = 2.0;
    *writehead.index_mut(&mut multitap, 2) = 3.0;

    let mut readhead = multitap.as_readhead(0);

    assert_eq!(readhead.next(&multitap).unwrap(), 1.0);
    assert_eq!(readhead.next(&multitap).unwrap(), 2.0);
    assert_eq!(readhead.next(&multitap).unwrap(), 3.0);
}

#[test]
pub fn from_slice() {
    let mut array: [f32; 3] = [0.; 3];
    let mut multitap: Multitap<f32, 3> = Multitap::from_slice(array.as_mut_slice()).unwrap();

    let writehead = multitap.as_writehead().unwrap();

    *writehead.index_mut(&mut multitap, 0) = 1.0;
    *writehead.index_mut(&mut multitap, 1) = 2.0;
    *writehead.index_mut(&mut multitap, 2) = 3.0;

    let mut readhead = multitap.as_readhead(0);

    assert_eq!(readhead.next(&multitap).unwrap(), 1.0);
    assert_eq!(readhead.next(&multitap).unwrap(), 2.0);
    assert_eq!(readhead.next(&multitap).unwrap(), 3.0);
}
