//! What the kernel is asked to do for a socket.

use vstd::prelude::*;

verus! {

/// What the kernel can be asked to do for a socket.
#[derive(Clone, Copy, Debug, PartialEq, Eq, Structural)]
pub enum SocketOption {
    CheckUdpDrop,
    TxTime,
    Gro,
    RcvMark,
    IpMtuDiscoverProbe,
    Ipv6MtuDiscoverProbe,
    Ipv4PktInfo,
    Ipv4RecvOrigDstAddr,
    Ipv6PktInfo,
    Ipv6RecvOrigDstAddr,
}

/// What is asked for a socket where segmentation is not wanted.
pub open spec fn without_segmentation(nonlocal_source: bool) -> Seq<SocketOption> {
    let always = seq![
        SocketOption::CheckUdpDrop,
        SocketOption::TxTime,
        SocketOption::Gro,
        SocketOption::RcvMark,
        SocketOption::IpMtuDiscoverProbe,
        SocketOption::Ipv6MtuDiscoverProbe,
    ];
    if nonlocal_source {
        always + seq![
            SocketOption::Ipv4PktInfo,
            SocketOption::Ipv4RecvOrigDstAddr,
            SocketOption::Ipv6PktInfo,
            SocketOption::Ipv6RecvOrigDstAddr,
        ]
    } else {
        always
    }
}

/// What to ask for a socket, given whether segmentation is wanted: where it is, `None`,
/// which is everything that the kernel can do. Where it is not, everything else has to be
/// named; control of the source address is of use only if the socket may send from an
/// address that it isn't bound to. Each is best-effort, so a kernel that rejects one still
/// gets the rest.
pub fn capabilities(gso: bool, nonlocal_source: bool) -> (options: Option<Vec<SocketOption>>)
    ensures
        gso ==> options is None,
        !gso ==> options is Some && options->0@ == without_segmentation(nonlocal_source),
{
    if gso {
        return None;
    }
    let mut options: Vec<SocketOption> = Vec::new();
    options.push(SocketOption::CheckUdpDrop);
    options.push(SocketOption::TxTime);
    options.push(SocketOption::Gro);
    options.push(SocketOption::RcvMark);
    options.push(SocketOption::IpMtuDiscoverProbe);
    options.push(SocketOption::Ipv6MtuDiscoverProbe);
    if nonlocal_source {
        options.push(SocketOption::Ipv4PktInfo);
        options.push(SocketOption::Ipv4RecvOrigDstAddr);
        options.push(SocketOption::Ipv6PktInfo);
        options.push(SocketOption::Ipv6RecvOrigDstAddr);
    }
    assert(options@ =~= without_segmentation(nonlocal_source));
    Some(options)
}

/// Where segmentation is wanted nothing has to be named. Otherwise everything else is asked
/// for, each thing once, and control of the source address exactly if it is of use.
pub proof fn law_everything_but_segmentation_is_asked_for(gso: bool, nonlocal: bool, options: Option<Vec<SocketOption>>)
    requires
        call_ensures(capabilities, (gso, nonlocal), options),
    ensures
        options is None <==> gso,
        options is Some ==> {
            &&& options->0@.no_duplicates()
            &&& options->0@.contains(SocketOption::CheckUdpDrop) && options->0@.contains(SocketOption::TxTime)
            &&& options->0@.contains(SocketOption::Gro) && options->0@.contains(SocketOption::RcvMark)
            &&& options->0@.contains(SocketOption::IpMtuDiscoverProbe)
            &&& options->0@.contains(SocketOption::Ipv6MtuDiscoverProbe)
            &&& options->0@.contains(SocketOption::Ipv4PktInfo) <==> nonlocal
            &&& options->0@.contains(SocketOption::Ipv4RecvOrigDstAddr) <==> nonlocal
            &&& options->0@.contains(SocketOption::Ipv6PktInfo) <==> nonlocal
            &&& options->0@.contains(SocketOption::Ipv6RecvOrigDstAddr) <==> nonlocal
        },
{
    if options is Some {
        let list = options->0@;
        assert(list == without_segmentation(nonlocal));
        assert(list[0] == SocketOption::CheckUdpDrop && list[1] == SocketOption::TxTime);
        assert(list[2] == SocketOption::Gro && list[3] == SocketOption::RcvMark);
        assert(list[4] == SocketOption::IpMtuDiscoverProbe && list[5] == SocketOption::Ipv6MtuDiscoverProbe);
        if nonlocal {
            assert(list[6] == SocketOption::Ipv4PktInfo && list[7] == SocketOption::Ipv4RecvOrigDstAddr);
            assert(list[8] == SocketOption::Ipv6PktInfo && list[9] == SocketOption::Ipv6RecvOrigDstAddr);
        }
    }
}

} // verus!
