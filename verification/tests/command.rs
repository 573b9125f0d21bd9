use colourspace_link::command::{init_profile_command, measurement_command};

#[test]
fn handshake_text() {
    assert_eq!(
        init_profile_command(),
        "<?xml version=\"1.0\" encoding=\"UTF-8\" ?><CS_RMC version=1><command>init profile</command></CS_RMC>"
    );
}

#[test]
fn measurement_request_text() {
    assert_eq!(
        measurement_command(10, 20, 30),
        "<?xml version=\"1.0\" encoding=\"UTF-8\" ?><CS_RMC version=1><measurement><red>10</red><green>20</green><blue>30</blue></measurement></CS_RMC>"
    );
}

#[test]
fn measurement_request_at_the_ends_of_the_range() {
    assert_eq!(
        measurement_command(0, 255, 100),
        "<?xml version=\"1.0\" encoding=\"UTF-8\" ?><CS_RMC version=1><measurement><red>0</red><green>255</green><blue>100</blue></measurement></CS_RMC>"
    );
}
