//! The search for free TCP ports.

use vstd::prelude::*;

use crate::error::ScrcpyError;

verus! {

/// The last port of a search that starts at `start` and goes on for `attempts` ports; there is
/// no port beyond 65535.
pub open spec fn last_port(start: u16, attempts: u16) -> u16 {
    if start + attempts > 65535 {
        65535
    } else {
        (start + attempts) as u16
    }
}

/// Finds the first free port from `start_port` up to `max_attempts` ports further on, asking
/// `is_port_available` about one port after the other until it says yes.
pub fn find_available_port<F: Fn(u16) -> bool>(
    start_port: u16,
    max_attempts: u16,
    is_port_available: F,
) -> (r: Result<u16, ScrcpyError>)
    requires
        forall|p: u16| call_requires(is_port_available, (p,)),
    ensures
        match r {
            Ok(port) => {
                &&& start_port <= port <= last_port(start_port, max_attempts)
                &&& call_ensures(is_port_available, (port,), true)
                &&& forall|p: u16|
                    start_port <= p < port ==> call_ensures(is_port_available, (p,), false)
            },
            Err(e) => {
                &&& e@ == crate::error::ErrorView::NoAvailablePort(
                    start_port,
                    last_port(start_port, max_attempts),
                )
                &&& forall|p: u16|
                    start_port <= p <= last_port(start_port, max_attempts) ==> call_ensures(
                        is_port_available,
                        (p,),
                        false,
                    )
            },
        },
{
    let end_port: u16 = start_port.saturating_add(max_attempts);
    let mut port: u16 = start_port;
    loop
        invariant
            start_port <= port <= end_port,
            end_port == last_port(start_port, max_attempts),
            forall|p: u16| call_requires(is_port_available, (p,)),
            forall|p: u16| start_port <= p < port ==> call_ensures(is_port_available, (p,), false),
        decreases end_port - port,
    {
        if is_port_available(port) {
            return Ok(port);
        }
        if port == end_port {
            return Err(ScrcpyError::NoAvailablePort(start_port, end_port));
        }
        port = port + 1;
    }
}

/// The ports of a session: the first is for video, the second for control.
#[derive(Debug, Clone, Copy, PartialEq, Eq, Structural)]
pub struct SessionPorts {
    pub video: u16,
    pub control: u16,
}

/// Where the search for the control port starts: at the port that was asked for, or behind the
/// video port where it would not lie beyond that.
pub open spec fn control_start(control_port: u16, video: u16) -> int {
    if control_port <= video {
        video + 1
    } else {
        control_port as int
    }
}

/// The last port of all does not come out as the video port: no port lies behind it.
pub open spec fn port_behind_video<F: Fn(u16) -> bool>(
    is_port_available: F,
    video_port: u16,
) -> bool {
    (forall|p: u16| video_port <= p < 65535 ==> call_ensures(is_port_available, (p,), false))
        ==> !call_ensures(is_port_available, (65535u16,), true)
}

/// What the search for the ports of a session comes to. The video port is the first free one of
/// its search. The control port is the first free one of its own, which begins behind the video
/// port. An error says which of the two searches found nothing.
pub open spec fn ports_found<F: Fn(u16) -> bool>(
    is_port_available: F,
    video_port: u16,
    control_port: u16,
    r: Result<SessionPorts, ScrcpyError>,
) -> bool {
    match r {
        Ok(ports) => {
            let from = control_start(control_port, ports.video);
            &&& video_port <= ports.video <= last_port(video_port, 100)
            &&& call_ensures(is_port_available, (ports.video,), true)
            &&& forall|p: u16|
                video_port <= p < ports.video ==> call_ensures(is_port_available, (p,), false)
            &&& ports.control > ports.video
            &&& from <= ports.control <= last_port(from as u16, 100)
            &&& call_ensures(is_port_available, (ports.control,), true)
            &&& forall|p: u16|
                from <= p < ports.control ==> call_ensures(is_port_available, (p,), false)
        },
        Err(e) => e@ == crate::error::ErrorView::NoAvailablePort(
            video_port,
            last_port(video_port, 100),
        ) && (forall|p: u16|
            video_port <= p <= last_port(video_port, 100) ==> call_ensures(
                is_port_available,
                (p,),
                false,
            )) || exists|video: u16|
            {
                let from = control_start(control_port, video);
                &&& video_port <= video <= last_port(video_port, 100)
                &&& #[trigger] call_ensures(is_port_available, (video,), true)
                &&& forall|p: u16|
                    video_port <= p < video ==> call_ensures(is_port_available, (p,), false)
                &&& e@ == crate::error::ErrorView::NoAvailablePort(
                    from as u16,
                    last_port(from as u16, 100),
                )
                &&& forall|p: u16|
                    from <= p <= last_port(from as u16, 100) ==> call_ensures(
                        is_port_available,
                        (p,),
                        false,
                    )
            },
    }
}

/// Finds the ports of a session, each among the 101 ports from where its search starts. There is
/// no port behind 65535, so that one must not come out as the video port.
pub fn find_session_ports<F: Fn(u16) -> bool>(
    video_port: u16,
    control_port: u16,
    is_port_available: F,
) -> (r: Result<SessionPorts, ScrcpyError>)
    requires
        forall|p: u16| call_requires(is_port_available, (p,)),
        port_behind_video(is_port_available, video_port),
    ensures
        ports_found(is_port_available, video_port, control_port, r),
{
    let video: u16 = match find_available_port(video_port, 100, &is_port_available) {
        Ok(p) => p,
        Err(e) => {
            return Err(e);
        },
    };
    let from: u16 = if control_port <= video {
        video + 1
    } else {
        control_port
    };
    match find_available_port(from, 100, &is_port_available) {
        Ok(control) => Ok(SessionPorts { video, control }),
        Err(e) => Err(e),
    }
}

/// A search looks at the port where it starts and at as many more as it may, but at none behind the
/// last port there is.
pub proof fn law_last_port(start: u16, attempts: u16)
    ensures
        start <= last_port(start, attempts),
        start + attempts <= 65535 ==> last_port(start, attempts) - start == attempts,
        start + attempts > 65535 ==> last_port(start, attempts) == 65535,
{
}

/// The control port lies behind the video port. It is looked for from the port that was asked for,
/// where that lies behind the video port, and else from the port next to the video port.
pub proof fn law_control_behind_video(control_port: u16, video: u16)
    ensures
        control_start(control_port, video) > video,
        control_port > video ==> control_start(control_port, video) == control_port,
        control_port <= video ==> control_start(control_port, video) - video == 1,
{
}

/// The ports of a session: the one for video is the first that is free from where it was asked for,
/// at most a hundred ports further on. The one for control lies behind it, is the first that is free
/// from there or from where it was asked for, whichever is further on, and at most a hundred ports
/// further on as well.
pub proof fn law_session_ports<F: Fn(u16) -> bool>(
    is_port_available: F,
    video_port: u16,
    control_port: u16,
    ports: SessionPorts,
    p: u16,
)
    requires
        ports_found(is_port_available, video_port, control_port, Ok(ports)),
        ports.video < 65535,
    ensures
        video_port <= ports.video <= video_port + 100,
        ports.video < ports.control,
        control_port <= ports.control,
        ports.control <= ports.video + 101 || ports.control <= control_port + 100,
        call_ensures(is_port_available, (ports.video,), true),
        call_ensures(is_port_available, (ports.control,), true),
        video_port <= p < ports.video ==> call_ensures(is_port_available, (p,), false),
        ports.video < p < ports.control && control_port <= p ==> call_ensures(
            is_port_available,
            (p,),
            false,
        ),
{
    law_control_behind_video(control_port, ports.video);
}

/// An error gives the ends of a search in which no port was free: from the port for video that was
/// asked for, or from one behind it that is no less than the port for control; at most a hundred
/// ports further on.
pub proof fn law_no_session_ports<F: Fn(u16) -> bool>(
    is_port_available: F,
    video_port: u16,
    control_port: u16,
    e: ScrcpyError,
    p: u16,
)
    requires
        ports_found(is_port_available, video_port, control_port, Err(e)),
        !call_ensures(is_port_available, (65535u16,), true),
    ensures
        e@ matches crate::error::ErrorView::NoAvailablePort(from, to) && {
            &&& from == video_port || (from > video_port && from >= control_port)
            &&& to == from + 100 || (to == 65535 && from + 100 > 65535)
            &&& from <= p <= to ==> call_ensures(is_port_available, (p,), false)
        },
{
}

} // verus!
