//! Pocket Relay version of gosredirector.ea.com, informs the game clients
//! where the blaze server is located, in this case it always reports the
//! servers as localhost

use vstd::prelude::*;

use super::BLAZE_PORT;
use crate::fire::{
    fire_step, law_frame_round_trip, response_header, Frame, FrameHeader, FrameType, FrameView,
};
use crate::tagged::{
    tag_bool, tag_bytes, tag_group, tag_group_end, tag_u16, tag_u32, tag_union_start, var_int,
    var_int_rest, GROUP, TAGGED_UNION, VAR_INT,
};

verus! {

/// Allowed time in seconds for a redirect to occur before considering
/// the connection as timed out
pub const REDIRECT_TIMEOUT: u64 = 60;

/// Redirector component to expect
pub const COMPONENT_REDIRECTOR: u16 = 0x5;

/// getServerInstance command to expect
pub const COMMAND_GET_SERVER_INSTANCE: u16 = 0x1;

/// The address 127.0.0.1 as one number
pub const LOCALHOST: u32 = 0x7F00_0001;

/// The tag "ADDR"
pub const TAG_ADDRESS: [u8; 4] = [0x41, 0x44, 0x44, 0x52];

/// The tag "VALU"
pub const TAG_VALUE: [u8; 4] = [0x56, 0x41, 0x4C, 0x55];

/// The tag "IP"
pub const TAG_IP: [u8; 2] = [0x49, 0x50];

/// The tag "PORT"
pub const TAG_PORT: [u8; 4] = [0x50, 0x4F, 0x52, 0x54];

/// The tag "SECU"
pub const TAG_SECURE: [u8; 4] = [0x53, 0x45, 0x43, 0x55];

/// The tag "XDNS"
pub const TAG_XDNS: [u8; 4] = [0x58, 0x44, 0x4E, 0x53];

/// The contents of the response that redirects to a server: the server address
/// type with a group that holds the address and the port, then that the
/// connection is not secure and that the host name does not have to be looked up
pub open spec fn instance_response(address: u32, port: u16) -> Seq<u8> {
    let address = tag_bytes(TAG_IP@, VAR_INT) + var_int(address as nat);
    let port = tag_bytes(TAG_PORT@, VAR_INT) + var_int(port as nat);
    let value = tag_bytes(TAG_VALUE@, GROUP) + address + port + seq![0u8];
    tag_bytes(TAG_ADDRESS@, TAGGED_UNION) + seq![0u8] + value + tag_bytes(TAG_SECURE@, VAR_INT)
        + seq![0u8] + tag_bytes(TAG_XDNS@, VAR_INT) + seq![0u8]
}

/// Writes the response for redirecting to a local instance
pub fn local_instance_response() -> (output: Vec<u8>)
    ensures
        output@ == instance_response(LOCALHOST, BLAZE_PORT),
{
    let mut output: Vec<u8> = Vec::new();
    // Server address type
    tag_union_start(&mut output, &TAG_ADDRESS, 0x0);

    // Encode the net address portion
    tag_group(&mut output, &TAG_VALUE);
    tag_u32(&mut output, &TAG_IP, LOCALHOST);
    tag_u16(&mut output, &TAG_PORT, BLAZE_PORT);
    tag_group_end(&mut output);

    tag_bool(&mut output, &TAG_SECURE, false);
    tag_bool(&mut output, &TAG_XDNS, false);
    assert(output@ =~= instance_response(LOCALHOST, BLAZE_PORT));
    output
}

/// Whether a request asks for the server instance
pub open spec fn asks_for_instance(header: FrameHeader) -> bool {
    header.component == COMPONENT_REDIRECTOR && header.command == COMMAND_GET_SERVER_INSTANCE
}

/// The contents of the response to a request: the local instance if the request
/// asks for it, else nothing
pub open spec fn redirect_contents(header: FrameHeader) -> Seq<u8> {
    if asks_for_instance(header) {
        instance_response(LOCALHOST, BLAZE_PORT)
    } else {
        Seq::empty()
    }
}

/// The response to a request
pub open spec fn redirect_response(header: FrameHeader) -> FrameView {
    let contents = redirect_contents(header);
    FrameView { header: response_header(header, contents.len() as usize), contents }
}

/// Provides the response to a request, and whether the redirect is complete: the
/// connection then ends, while unexpected requests leave it open
///
/// ## Arguments
/// * `header` - The header of the request
pub fn redirect(header: &FrameHeader) -> (result: (Frame, bool))
    ensures
        result.0@ == redirect_response(*header),
        result.1 == asks_for_instance(*header),
        result.1 == (header.component == 5 && header.command == 1),
        result.1 ==> result.0@.contents == instance_response(LOCALHOST, BLAZE_PORT),
        !result.1 ==> result.0@.contents.len() == 0,
{
    // Respond to unexpected packets with empty responses
    if header.component != COMPONENT_REDIRECTOR || header.command != COMMAND_GET_SERVER_INSTANCE {
        (Frame::response_empty(header), false)
    } else {
        (Frame::response(header, local_instance_response()), true)
    }
}

/// Every response tells the request that it belongs to, and a client that
/// decodes it gets it as it was
pub proof fn law_redirect_reaches_client(header: FrameHeader, rest: Seq<u8>)
    ensures
        ({
            let response = redirect_response(header);
            let step = fire_step(None, response.bytes() + rest);
            &&& response.header.seq == header.seq
            &&& response.header.component == header.component
            &&& response.header.command == header.command
            &&& response.header.ty == FrameType::Response
            &&& step.frame == Some(response)
            &&& step.rest == rest
        }),
{
    reveal_with_fuel(var_int_rest, 5);
    assert(var_int(LOCALHOST as nat).len() == 5);
    assert(var_int(BLAZE_PORT as nat).len() == 3);
    assert(redirect_response(header).well_formed());
    law_frame_round_trip(redirect_response(header), rest);
}

/// The responses to the requests of a connection, up to the one that completes
/// the redirect
pub open spec fn conversation(requests: Seq<FrameHeader>) -> Seq<FrameView>
    decreases requests.len(),
{
    if requests.len() == 0 {
        Seq::empty()
    } else if asks_for_instance(requests[0]) {
        seq![redirect_response(requests[0])]
    } else {
        seq![redirect_response(requests[0])] + conversation(requests.drop_first())
    }
}

/// The requests of a connection are answered in order, each unexpected one with
/// an empty response, until the first one that asks for the server instance is
/// told the local one. No later one is answered.
pub proof fn law_redirect_conversation(requests: Seq<FrameHeader>, first: int)
    requires
        0 <= first <= requests.len(),
        forall|i: int| 0 <= i < first ==> !asks_for_instance(#[trigger] requests[i]),
        first < requests.len() ==> asks_for_instance(requests[first]),
    ensures
        conversation(requests).len() == if first < requests.len() {
            first + 1
        } else {
            first
        },
        forall|i: int|
            0 <= i < first ==> (#[trigger] conversation(requests)[i]) == redirect_response(
                requests[i],
            ) && conversation(requests)[i].contents.len() == 0,
        first < requests.len() ==> conversation(requests)[first].contents == instance_response(
            LOCALHOST,
            BLAZE_PORT,
        ),
    decreases first,
{
    if first > 0 {
        let later = requests.drop_first();
        assert(!asks_for_instance(requests[0]));
        assert forall|i: int| 0 <= i < first - 1 implies !asks_for_instance(
            #[trigger] later[i],
        ) by {
            assert(later[i] == requests[i + 1]);
        }
        law_redirect_conversation(later, first - 1);
        assert forall|i: int| 0 <= i < first implies (#[trigger] conversation(requests)[i])
            == redirect_response(requests[i]) && conversation(requests)[i].contents.len() == 0 by {
            if i > 0 {
                assert(conversation(requests)[i] == conversation(later)[i - 1]);
                assert(later[i - 1] == requests[i]);
            }
        }
        if first < requests.len() {
            assert(conversation(requests)[first] == conversation(later)[first - 1]);
        }
    }
}

/// What a request is answered, by its component and command alone: the component 5
/// with the command 1 is told the address 127.0.0.1 and the port 42128, which
/// completes the redirect, and everything else gets an empty response
pub proof fn law_redirect(header: FrameHeader)
    ensures
        header.component == 5 && header.command == 1 ==> {
            &&& asks_for_instance(header)
            &&& redirect_contents(header) == seq![
                0x86u8, 0x49, 0x32, 0x06, 0x00, 0xDA, 0x1B, 0x35, 0x03, 0xA7, 0x00, 0x00, 0x00,
                0x81, 0x80, 0x80, 0xF0, 0x0F, 0xC2, 0xFC, 0xB4, 0x00, 0x90, 0x92, 0x05, 0x00,
                0xCE, 0x58, 0xF5, 0x00, 0x00, 0xE2, 0x4B, 0xB3, 0x00, 0x00,
            ]
            &&& redirect_contents(header) == instance_response(0x7F00_0001, 42128)
        },
        header.component != 5 || header.command != 1 ==> {
            &&& !asks_for_instance(header)
            &&& redirect_contents(header).len() == 0
        },
        redirect_response(header).contents == redirect_contents(header),
        redirect_response(header).header.length == redirect_contents(header).len(),
        redirect_response(header).header.error == 0,
        redirect_response(header).header.options == 0,
{
    reveal_with_fuel(var_int_rest, 5);
    let address = var_int(0x7F00_0001);
    let port = var_int(42128);
    assert(address =~= seq![0x81u8, 0x80, 0x80, 0xF0, 0x0F]);
    assert(port =~= seq![0x90u8, 0x92, 0x05]);
    assert(tag_bytes(TAG_ADDRESS@, TAGGED_UNION) =~= seq![0x86u8, 0x49, 0x32, 0x06]);
    assert(tag_bytes(TAG_VALUE@, GROUP) =~= seq![0xDAu8, 0x1B, 0x35, 0x03]);
    assert(tag_bytes(TAG_IP@, VAR_INT) =~= seq![0xA7u8, 0x00, 0x00, 0x00]);
    assert(tag_bytes(TAG_PORT@, VAR_INT) =~= seq![0xC2u8, 0xFC, 0xB4, 0x00]);
    assert(tag_bytes(TAG_SECURE@, VAR_INT) =~= seq![0xCEu8, 0x58, 0xF5, 0x00]);
    assert(tag_bytes(TAG_XDNS@, VAR_INT) =~= seq![0xE2u8, 0x4B, 0xB3, 0x00]);
    assert(instance_response(0x7F00_0001, 42128) =~= seq![
        0x86u8, 0x49, 0x32, 0x06, 0x00, 0xDA, 0x1B, 0x35, 0x03, 0xA7, 0x00, 0x00, 0x00,
        0x81, 0x80, 0x80, 0xF0, 0x0F, 0xC2, 0xFC, 0xB4, 0x00, 0x90, 0x92, 0x05, 0x00,
        0xCE, 0x58, 0xF5, 0x00, 0x00, 0xE2, 0x4B, 0xB3, 0x00, 0x00,
    ]);
}

} // verus!
