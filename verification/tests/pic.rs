use barefuzz::pic::{
    ChainedPics, Pic, PortWrite, CMD_END_OF_INTERRUPT, CMD_INIT, MODE_8086, WAIT_PORT,
};

fn write(port: u16, value: u8) -> PortWrite {
    PortWrite { port, value }
}

#[test]
fn standard_controllers_sit_on_their_usual_ports() {
    let pics = ChainedPics::new(32, 40);
    assert_eq!(pics.primary, Pic { offset: 32, command: 0x20, data: 0x21 });
    assert_eq!(pics.secondary, Pic { offset: 40, command: 0xA0, data: 0xA1 });
    assert_eq!(pics.read_masks(), [0x21, 0xA1]);
}

#[test]
fn each_controller_handles_eight_vectors() {
    let pics = ChainedPics::new(32, 40);
    assert!(!pics.handles_interrupt(31));
    for vector in 32..48u8 {
        assert!(pics.handles_interrupt(vector));
        assert_eq!(pics.primary.handles_interrupt(vector), vector < 40);
        assert_eq!(pics.secondary.handles_interrupt(vector), vector >= 40);
    }
    assert!(!pics.handles_interrupt(48));
    assert!(!pics.handles_interrupt(0));
    assert!(!pics.handles_interrupt(255));
}

#[test]
fn controller_near_the_last_vector_handles_up_to_the_end() {
    let pic = Pic { offset: 250, command: 0, data: 1 };
    assert!(!pic.handles_interrupt(249));
    assert!(pic.handles_interrupt(250));
    assert!(pic.handles_interrupt(255));
}

#[test]
fn initialization_sends_the_sequence_and_restores_the_masks() {
    let pics = ChainedPics::new(32, 40);
    let wait = write(WAIT_PORT, 0);
    assert_eq!(
        pics.initialize([0xfb, 0xff]),
        vec![
            write(0x20, CMD_INIT),
            wait,
            write(0xA0, CMD_INIT),
            wait,
            write(0x21, 32),
            wait,
            write(0xA1, 40),
            wait,
            write(0x21, 4),
            wait,
            write(0xA1, 2),
            wait,
            write(0x21, MODE_8086),
            wait,
            write(0xA1, MODE_8086),
            wait,
            write(0x21, 0xfb),
            write(0xA1, 0xff),
        ]
    );
    assert_eq!((CMD_INIT, MODE_8086, WAIT_PORT), (0x11, 0x01, 0x80));
}

#[test]
fn masks_go_to_the_data_ports() {
    let pics = ChainedPics::new(32, 40);
    assert_eq!(pics.write_masks(0x0f, 0xf0), [write(0x21, 0x0f), write(0xA1, 0xf0)]);
    assert_eq!(pics.disable(), [write(0x21, 0xff), write(0xA1, 0xff)]);
}

#[test]
fn end_of_interrupt_goes_to_the_controllers_involved() {
    let pics = ChainedPics::new(32, 40);
    assert_eq!(CMD_END_OF_INTERRUPT, 0x20);
    assert_eq!(pics.notify_end_of_interrupt(32), vec![write(0x20, 0x20)]);
    assert_eq!(pics.notify_end_of_interrupt(39), vec![write(0x20, 0x20)]);
    assert_eq!(pics.notify_end_of_interrupt(40), vec![write(0xA0, 0x20), write(0x20, 0x20)]);
    assert_eq!(pics.notify_end_of_interrupt(47), vec![write(0xA0, 0x20), write(0x20, 0x20)]);
    assert_eq!(pics.notify_end_of_interrupt(48), vec![]);
    assert_eq!(pics.notify_end_of_interrupt(3), vec![]);
}
