//! The socket and protocol-chain runtime: an owned registry of live
//! connections, each holding an ordered stack of tagged protocol layers
//! (insertion order is stack order, bottom first).  A layer finds its
//! collaborators here: the layer of a given kind, and the layer
//! immediately beneath a kind, to which reads, writes and flushes
//! delegate.  Options are dispatched by name to the layer that owns them.

use vstd::prelude::*;

use crate::DLPErrorDefinitions;

verus! {

/// The kinds of protocol layer a connection's stack can hold, bottom
/// (device) to top (socket).
#[derive(Clone, Copy, PartialEq, Eq, Structural, Debug)]
pub enum OptLevels {
    LevelDev,
    LevelSLP,
    LevelPADP,
    LevelNet,
    LevelSys,
    LevelCMP,
    LevelDLP,
    LevelSock,
}

/// The named options a layer can own.
#[derive(Clone, Copy, PartialEq, Eq, Structural, Debug)]
pub enum Opt {
    PADPType,
    PADPLastType,
    PADPFreezeTXID,
    PADPUseLongFormat,
    SocketState,
    SocketHonorRXTimeout,
    CMPType,
    CMPFlags,
    CMPVers,
    CMPBaud,
}

/// Per-layer option state: the handshake layer's record type, flags,
/// version and baud rate, and the reliability layer's packet type.
#[derive(Clone, Copy, PartialEq, Eq, Structural, Debug)]
pub struct Data {
    pub cmp_data_type: u8,
    pub cmp_flags: u8,
    pub cmp_version: u16,
    pub cmp_baudrate: u64,
    pub padp_data_type: u8,
}

/// One protocol layer in a connection's stack: its kind tag and its
/// option state.
#[derive(Clone, Copy, PartialEq, Eq, Structural, Debug)]
pub struct Protocol {
    pub level: OptLevels,
    pub data: Data,
}

/// The low-level device a connection talks to.
#[derive(Clone, Copy, PartialEq, Eq, Structural, Debug)]
pub struct Device {}

/// One logical connection: its descriptor, lifecycle and option fields,
/// and its two layer stacks (the steady-state one, and the command one
/// used while `command` is nonzero).
pub struct Socket {
    pub socket_descriptor: i32,
    pub socket_type: i32,
    pub protocol: i32,
    pub cmd: i32,
    pub laddrlen: usize,
    pub raddrlen: usize,
    pub protocol_queue: Vec<Protocol>,
    pub cmd_queue: Vec<Protocol>,
    pub device: Device,
    pub socket_state: i32,
    pub honor_rx_to: i32,
    pub command: i32,
    pub accept_to: i32,
    pub dlprecord: i32,
    pub dlpversion: i32,
    pub maxrecsize: u64,
    pub last_error: DLPErrorDefinitions,
    pub palmos_error: i32,
}

/// The layer stack a lookup walks: the command stack while a command is
/// in progress, the steady-state stack otherwise.
pub open spec fn queue_of(s: Socket) -> Seq<Protocol> {
    if s.command != 0 {
        s.cmd_queue@
    } else {
        s.protocol_queue@
    }
}

/// The position of the first layer of the given kind, or -1.
pub open spec fn first_level(q: Seq<Protocol>, level: OptLevels) -> int
    decreases q.len(),
{
    if q.len() == 0 {
        -1
    } else if q[0].level == level {
        0
    } else {
        let r = first_level(q.drop_first(), level);
        if r < 0 {
            -1
        } else {
            r + 1
        }
    }
}

/// What the position of the first layer of a kind means: in range, of
/// that kind, with no earlier layer of it; or -1, and no layer of it at
/// all.
pub proof fn lemma_first_level(q: Seq<Protocol>, level: OptLevels)
    ensures
        first_level(q, level) == -1 ==> forall|i: int|
            0 <= i < q.len() ==> (#[trigger] q[i]).level != level,
        first_level(q, level) >= 0 ==> first_level(q, level) < q.len() && q[first_level(
            q,
            level,
        )].level == level && forall|j: int|
            0 <= j < first_level(q, level) ==> (#[trigger] q[j]).level != level,
    decreases q.len(),
{
    if q.len() > 0 && q[0].level != level {
        lemma_first_level(q.drop_first(), level);
        let r = first_level(q.drop_first(), level);
        if r >= 0 {
            assert forall|j: int| 0 <= j < r + 1 implies (#[trigger] q[j]).level != level by {
                if j > 0 {
                    assert(q[j] == q.drop_first()[j - 1]);
                }
            }
        } else {
            assert forall|i: int| 0 <= i < q.len() implies (#[trigger] q[i]).level != level by {
                if i > 0 {
                    assert(q[i] == q.drop_first()[i - 1]);
                }
            }
        }
    }
}

/// The position of the first socket with the given descriptor, or -1.
pub open spec fn first_sd(list: Seq<Socket>, sd: i32) -> int
    decreases list.len(),
{
    if list.len() == 0 {
        -1
    } else if list[0].socket_descriptor == sd {
        0
    } else {
        let r = first_sd(list.drop_first(), sd);
        if r < 0 {
            -1
        } else {
            r + 1
        }
    }
}

/// What the position of the first socket with a descriptor means.
pub proof fn lemma_first_sd(list: Seq<Socket>, sd: i32)
    ensures
        first_sd(list, sd) == -1 ==> forall|i: int|
            0 <= i < list.len() ==> (#[trigger] list[i]).socket_descriptor != sd,
        first_sd(list, sd) >= 0 ==> first_sd(list, sd) < list.len() && list[first_sd(
            list,
            sd,
        )].socket_descriptor == sd && forall|j: int|
            0 <= j < first_sd(list, sd) ==> (#[trigger] list[j]).socket_descriptor != sd,
    decreases list.len(),
{
    if list.len() > 0 && list[0].socket_descriptor != sd {
        lemma_first_sd(list.drop_first(), sd);
        let r = first_sd(list.drop_first(), sd);
        if r >= 0 {
            assert forall|j: int| 0 <= j < r + 1 implies (#[trigger] list[j]).socket_descriptor
                != sd by {
                if j > 0 {
                    assert(list[j] == list.drop_first()[j - 1]);
                }
            }
        } else {
            assert forall|i: int| 0 <= i < list.len() implies (
            #[trigger] list[i]).socket_descriptor != sd by {
                if i > 0 {
                    assert(list[i] == list.drop_first()[i - 1]);
                }
            }
        }
    }
}

/// Finds the first layer of the given kind on this connection.
pub fn protocol_queue_find(ps: &Socket, level: OptLevels) -> (r: Option<Protocol>)
    ensures
        r == (if first_level(queue_of(*ps), level) >= 0 {
            Some(queue_of(*ps)[first_level(queue_of(*ps), level)])
        } else {
            Option::<Protocol>::None
        }),
{
    proof {
        lemma_first_level(queue_of(*ps), level);
    }
    let q: &Vec<Protocol> = if ps.command != 0 {
        &ps.cmd_queue
    } else {
        &ps.protocol_queue
    };
    let n = q.len();
    let mut i: usize = 0;
    while i < n
        invariant
            i <= n,
            n == q@.len(),
            q@ == queue_of(*ps),
            forall|j: int| 0 <= j < i ==> (#[trigger] q@[j]).level != level,
        decreases n - i,
    {
        if q[i].level == level {
            proof {
                lemma_first_level(queue_of(*ps), level);
            }
            return Some(q[i]);
        }
        i = i + 1;
    }
    proof {
        lemma_first_level(queue_of(*ps), level);
    }
    None
}

/// Finds the layer immediately beneath the first layer of the given kind
/// in stack order (stacks grow bottom to top): the delegation target for
/// that kind's reads, writes and flushes.  `None` when the kind is absent
/// or is the bottom layer.
pub fn protocol_queue_find_next(ps: &Socket, level: OptLevels) -> (r: Option<Protocol>)
    ensures
        r == (if first_level(queue_of(*ps), level) >= 1 {
            Some(queue_of(*ps)[first_level(queue_of(*ps), level) - 1])
        } else {
            Option::<Protocol>::None
        }),
{
    proof {
        lemma_first_level(queue_of(*ps), level);
    }
    let q: &Vec<Protocol> = if ps.command != 0 {
        &ps.cmd_queue
    } else {
        &ps.protocol_queue
    };
    let n = q.len();
    let mut i: usize = 0;
    while i < n
        invariant
            i <= n,
            n == q@.len(),
            q@ == queue_of(*ps),
            forall|j: int| 0 <= j < i ==> (#[trigger] q@[j]).level != level,
        decreases n - i,
    {
        if q[i].level == level {
            proof {
                lemma_first_level(queue_of(*ps), level);
            }
            if i == 0 {
                return None;
            }
            return Some(q[i - 1]);
        }
        i = i + 1;
    }
    proof {
        lemma_first_level(queue_of(*ps), level);
    }
    None
}

/// Finds the position of the first socket with the given descriptor in
/// the registry.
pub fn socket_list_search(a_socket_list: &Vec<Socket>, sd: i32) -> (r: Option<usize>)
    ensures
        r == (if first_sd(a_socket_list@, sd) >= 0 {
            Some(first_sd(a_socket_list@, sd) as usize)
        } else {
            Option::<usize>::None
        }),
{
    proof {
        lemma_first_sd(a_socket_list@, sd);
    }
    let n = a_socket_list.len();
    let mut i: usize = 0;
    while i < n
        invariant
            i <= n,
            n == a_socket_list@.len(),
            forall|j: int| 0 <= j < i ==> (#[trigger] a_socket_list@[j]).socket_descriptor != sd,
        decreases n - i,
    {
        if a_socket_list[i].socket_descriptor == sd {
            proof {
                lemma_first_sd(a_socket_list@, sd);
            }
            return Some(i);
        }
        i = i + 1;
    }
    proof {
        lemma_first_sd(a_socket_list@, sd);
    }
    None
}

/// Looks the socket with the given descriptor up in the registry.
pub fn find_socket<'a>(a_socket_list: &'a Vec<Socket>, sd: i32) -> (r: Option<&'a Socket>)
    ensures
        r matches Some(s) ==> first_sd(a_socket_list@, sd) >= 0 && *s == a_socket_list@[first_sd(
            a_socket_list@,
            sd,
        )],
        r is None ==> first_sd(a_socket_list@, sd) == -1,
{
    proof {
        lemma_first_sd(a_socket_list@, sd);
    }
    let _len: usize = a_socket_list.len();
    match socket_list_search(a_socket_list, sd) {
        Some(i) => Some(&a_socket_list[i]),
        None => None,
    }
}

/// Finds the first layer of the given kind on the connection with the
/// given descriptor.
pub fn get_protocol(a_socket_list: &Vec<Socket>, sd: i32, level: OptLevels) -> (r: Option<Protocol>)
    ensures
        first_sd(a_socket_list@, sd) == -1 ==> r is None,
        first_sd(a_socket_list@, sd) >= 0 ==> {
            let q = queue_of(a_socket_list@[first_sd(a_socket_list@, sd)]);
            r == (if first_level(q, level) >= 0 {
                Some(q[first_level(q, level)])
            } else {
                Option::<Protocol>::None
            })
        },
{
    match find_socket(a_socket_list, sd) {
        Some(s) => protocol_queue_find(s, level),
        None => None,
    }
}

/// Finds the delegation target beneath the given kind on the connection
/// with the given descriptor.
pub fn get_protocol_next(a_socket_list: &Vec<Socket>, sd: i32, level: OptLevels) -> (r: Option<
    Protocol,
>)
    ensures
        first_sd(a_socket_list@, sd) == -1 ==> r is None,
        first_sd(a_socket_list@, sd) >= 0 ==> {
            let q = queue_of(a_socket_list@[first_sd(a_socket_list@, sd)]);
            r == (if first_level(q, level) >= 1 {
                Some(q[first_level(q, level) - 1])
            } else {
                Option::<Protocol>::None
            })
        },
{
    match find_socket(a_socket_list, sd) {
        Some(s) => protocol_queue_find_next(s, level),
        None => None,
    }
}

/// Two sockets agree on every field but the recorded last error.
pub open spec fn socket_eq_except_error(a: Socket, b: Socket) -> bool {
    &&& a.socket_descriptor == b.socket_descriptor
    &&& a.socket_type == b.socket_type
    &&& a.protocol == b.protocol
    &&& a.cmd == b.cmd
    &&& a.laddrlen == b.laddrlen
    &&& a.raddrlen == b.raddrlen
    &&& a.protocol_queue@ == b.protocol_queue@
    &&& a.cmd_queue@ == b.cmd_queue@
    &&& a.socket_state == b.socket_state
    &&& a.honor_rx_to == b.honor_rx_to
    &&& a.command == b.command
    &&& a.accept_to == b.accept_to
    &&& a.dlprecord == b.dlprecord
    &&& a.dlpversion == b.dlpversion
    &&& a.maxrecsize == b.maxrecsize
    &&& a.palmos_error == b.palmos_error
}

/// Records an error code on the connection it happened on, handing the
/// code back so failure sites can record and return in one step.  An
/// unknown descriptor records nothing.
pub fn socket_set_error(a_socket_list: &mut Vec<Socket>, sd: i32, error_code: DLPErrorDefinitions)
    -> (r: DLPErrorDefinitions)
    ensures
        r == error_code,
        first_sd(old(a_socket_list)@, sd) == -1 ==> final(a_socket_list)@ == old(a_socket_list)@,
        first_sd(old(a_socket_list)@, sd) >= 0 ==> {
            let i = first_sd(old(a_socket_list)@, sd);
            &&& final(a_socket_list)@.len() == old(a_socket_list)@.len()
            &&& forall|j: int|
                0 <= j < old(a_socket_list)@.len() && j != i ==> final(a_socket_list)@[j] == old(
                    a_socket_list,
                )@[j]
            &&& socket_eq_except_error(final(a_socket_list)@[i], old(a_socket_list)@[i])
            &&& final(a_socket_list)@[i].last_error == error_code
        },
{
    proof {
        lemma_first_sd(a_socket_list@, sd);
    }
    let n: usize = a_socket_list.len();
    let idx = match socket_list_search(a_socket_list, sd) {
        Some(i) => i,
        None => {
            return error_code;
        },
    };
    let mut s = a_socket_list.remove(idx);
    s.last_error = error_code;
    let ghost s2 = s;
    a_socket_list.insert(idx, s);
    proof {
        assert(a_socket_list@ =~= old(a_socket_list)@.update(idx as int, s2));
        assert(socket_eq_except_error(s2, old(a_socket_list)@[idx as int]));
    }
    error_code
}

/// Appends a layer at the top of a connection's stack; an unknown
/// descriptor fails with the invalid-connection error.
pub fn register_layer(a_socket_list: &mut Vec<Socket>, sd: i32, layer: Protocol) -> (r:
    DLPErrorDefinitions)
    ensures
        first_sd(old(a_socket_list)@, sd) == -1 ==> r == DLPErrorDefinitions::ErrSockInvalid
            && final(a_socket_list)@ == old(a_socket_list)@,
        first_sd(old(a_socket_list)@, sd) >= 0 ==> {
            let i = first_sd(old(a_socket_list)@, sd);
            &&& r == DLPErrorDefinitions::ErrNoErr
            &&& final(a_socket_list)@.len() == old(a_socket_list)@.len()
            &&& forall|j: int|
                0 <= j < old(a_socket_list)@.len() && j != i ==> final(a_socket_list)@[j] == old(
                    a_socket_list,
                )@[j]
            &&& final(a_socket_list)@[i].protocol_queue@ == old(
                a_socket_list,
            )@[i].protocol_queue@.push(layer)
            &&& final(a_socket_list)@[i].cmd_queue@ == old(a_socket_list)@[i].cmd_queue@
            &&& final(a_socket_list)@[i].last_error == old(a_socket_list)@[i].last_error
        },
{
    proof {
        lemma_first_sd(a_socket_list@, sd);
    }
    let n: usize = a_socket_list.len();
    let idx = match socket_list_search(a_socket_list, sd) {
        Some(i) => i,
        None => {
            return DLPErrorDefinitions::ErrSockInvalid;
        },
    };
    let mut s = a_socket_list.remove(idx);
    s.protocol_queue.push(layer);
    let ghost s2 = s;
    a_socket_list.insert(idx, s);
    proof {
        assert(a_socket_list@ =~= old(a_socket_list)@.update(idx as int, s2));
    }
    DLPErrorDefinitions::ErrNoErr
}

/// Builds the handshake layer's entry for a connection's stack, with its
/// option state zeroed.
pub fn new_cmp_protocol() -> (r: Protocol)
    ensures
        r.level == OptLevels::LevelCMP,
        r.data.cmp_data_type == 0,
        r.data.cmp_flags == 0,
        r.data.cmp_version == 0,
        r.data.cmp_baudrate == 0,
        r.data.padp_data_type == 0,
{
    Protocol {
        level: OptLevels::LevelCMP,
        data: Data {
            cmp_data_type: 0,
            cmp_flags: 0,
            cmp_version: 0,
            cmp_baudrate: 0,
            padp_data_type: 0,
        },
    }
}

/// What setting one named option does to a layer's option state.
pub open spec fn apply_layer_opt(d: Data, level: OptLevels, name: Opt, value: i64, len: usize) -> (
    Data,
    DLPErrorDefinitions,
    usize,
) {
    if level == OptLevels::LevelCMP {
        if name == Opt::CMPType {
            if len != 1 {
                (d, DLPErrorDefinitions::ErrGenericArgument, len)
            } else {
                (Data { cmp_data_type: value as u8, ..d }, DLPErrorDefinitions::ErrNoErr, 1usize)
            }
        } else if name == Opt::CMPFlags {
            if len != 1 {
                (d, DLPErrorDefinitions::ErrGenericArgument, len)
            } else {
                (Data { cmp_flags: value as u8, ..d }, DLPErrorDefinitions::ErrNoErr, 1usize)
            }
        } else if name == Opt::CMPVers {
            if len != 2 {
                (d, DLPErrorDefinitions::ErrGenericArgument, len)
            } else {
                (Data { cmp_version: value as u16, ..d }, DLPErrorDefinitions::ErrNoErr, 2usize)
            }
        } else if name == Opt::CMPBaud {
            if len != 8 {
                (d, DLPErrorDefinitions::ErrGenericArgument, len)
            } else {
                (Data { cmp_baudrate: value as u64, ..d }, DLPErrorDefinitions::ErrNoErr, 8usize)
            }
        } else {
            (d, DLPErrorDefinitions::ErrGenericArgument, len)
        }
    } else if level == OptLevels::LevelPADP {
        if name == Opt::PADPType {
            if len != 1 {
                (d, DLPErrorDefinitions::ErrGenericArgument, len)
            } else {
                (Data { padp_data_type: value as u8, ..d }, DLPErrorDefinitions::ErrNoErr, 1usize)
            }
        } else {
            (d, DLPErrorDefinitions::ErrGenericArgument, len)
        }
    } else {
        (d, DLPErrorDefinitions::ErrGenericArgument, len)
    }
}

/// What reading one named option hands back from a layer's option state:
/// the value and the length it occupies, or an invalid-argument error for
/// a name the layer does not own.
pub open spec fn read_layer_opt(d: Data, level: OptLevels, name: Opt) -> (
    i64,
    DLPErrorDefinitions,
    usize,
) {
    if level == OptLevels::LevelCMP {
        if name == Opt::CMPType {
            (d.cmp_data_type as i64, DLPErrorDefinitions::ErrNoErr, 1usize)
        } else if name == Opt::CMPFlags {
            (d.cmp_flags as i64, DLPErrorDefinitions::ErrNoErr, 1usize)
        } else if name == Opt::CMPVers {
            (d.cmp_version as i64, DLPErrorDefinitions::ErrNoErr, 2usize)
        } else if name == Opt::CMPBaud {
            (d.cmp_baudrate as i64, DLPErrorDefinitions::ErrNoErr, 8usize)
        } else {
            (0i64, DLPErrorDefinitions::ErrGenericArgument, 0usize)
        }
    } else if level == OptLevels::LevelPADP {
        if name == Opt::PADPType {
            (d.padp_data_type as i64, DLPErrorDefinitions::ErrNoErr, 1usize)
        } else {
            (0i64, DLPErrorDefinitions::ErrGenericArgument, 0usize)
        }
    } else {
        (0i64, DLPErrorDefinitions::ErrGenericArgument, 0usize)
    }
}

/// Two sockets agree on every field an option cannot touch: everything
/// but the lifecycle state, the timeout toggle and the layer stacks.
pub open spec fn socket_eq_except_opts(a: Socket, b: Socket) -> bool {
    &&& a.socket_descriptor == b.socket_descriptor
    &&& a.socket_type == b.socket_type
    &&& a.protocol == b.protocol
    &&& a.cmd == b.cmd
    &&& a.laddrlen == b.laddrlen
    &&& a.raddrlen == b.raddrlen
    &&& a.command == b.command
    &&& a.accept_to == b.accept_to
    &&& a.dlprecord == b.dlprecord
    &&& a.dlpversion == b.dlpversion
    &&& a.maxrecsize == b.maxrecsize
    &&& a.last_error == b.last_error
    &&& a.palmos_error == b.palmos_error
}

/// Sets one named option on the connection with the given descriptor,
/// dispatching it to the layer that owns it: socket-level options land on
/// the socket itself; others land on the option state of the first layer
/// of the named kind, with the stored length handed back.  An unknown
/// descriptor, or a missing layer, is an invalid connection; a foreign
/// option name or a wrong length is an invalid argument and changes
/// nothing.
pub fn socket_set_sockopt(
    a_socket_list: &mut Vec<Socket>,
    sd: i32,
    level: OptLevels,
    option_name: Opt,
    option_value: &i64,
    option_len: &mut usize,
) -> (r: DLPErrorDefinitions)
    ensures
        first_sd(old(a_socket_list)@, sd) == -1 ==> r == DLPErrorDefinitions::ErrSockInvalid
            && final(a_socket_list)@ == old(a_socket_list)@ && *final(option_len) == *old(option_len),
        first_sd(old(a_socket_list)@, sd) >= 0 ==> {
            let i = first_sd(old(a_socket_list)@, sd);
            let s = old(a_socket_list)@[i];
            &&& final(a_socket_list)@.len() == old(a_socket_list)@.len()
            &&& forall|j: int|
                0 <= j < old(a_socket_list)@.len() && j != i ==> final(a_socket_list)@[j] == old(
                    a_socket_list,
                )@[j]
            &&& (level == OptLevels::LevelSock ==> {
                if option_name == Opt::SocketState && *old(option_len) == 4 {
                    &&& r == DLPErrorDefinitions::ErrNoErr
                    &&& *final(option_len) == 4
                    &&& socket_eq_except_opts(final(a_socket_list)@[i], s)
                    &&& final(a_socket_list)@[i].socket_state == *option_value as i32
                    &&& final(a_socket_list)@[i].honor_rx_to == s.honor_rx_to
                    &&& final(a_socket_list)@[i].protocol_queue@ == s.protocol_queue@
                    &&& final(a_socket_list)@[i].cmd_queue@ == s.cmd_queue@
                } else if option_name == Opt::SocketHonorRXTimeout && *old(option_len) == 4 {
                    &&& r == DLPErrorDefinitions::ErrNoErr
                    &&& *final(option_len) == 4
                    &&& socket_eq_except_opts(final(a_socket_list)@[i], s)
                    &&& final(a_socket_list)@[i].honor_rx_to == *option_value as i32
                    &&& final(a_socket_list)@[i].socket_state == s.socket_state
                    &&& final(a_socket_list)@[i].protocol_queue@ == s.protocol_queue@
                    &&& final(a_socket_list)@[i].cmd_queue@ == s.cmd_queue@
                } else {
                    &&& r == DLPErrorDefinitions::ErrGenericArgument
                    &&& final(a_socket_list)@ == old(a_socket_list)@
                    &&& *final(option_len) == *old(option_len)
                }
            })
            &&& (level != OptLevels::LevelSock ==> {
                let q = queue_of(s);
                let fl = first_level(q, level);
                if fl < 0 {
                    &&& r == DLPErrorDefinitions::ErrSockInvalid
                    &&& final(a_socket_list)@ == old(a_socket_list)@
                    &&& *final(option_len) == *old(option_len)
                } else {
                    let (d2, err, l2) = apply_layer_opt(
                        q[fl].data,
                        level,
                        option_name,
                        *option_value,
                        *old(option_len),
                    );
                    &&& r == err
                    &&& (err != DLPErrorDefinitions::ErrNoErr ==> final(a_socket_list)@ == old(
                        a_socket_list,
                    )@ && *final(option_len) == *old(option_len))
                    &&& (err == DLPErrorDefinitions::ErrNoErr ==> {
                        &&& *final(option_len) == l2
                        &&& socket_eq_except_opts(final(a_socket_list)@[i], s)
                        &&& final(a_socket_list)@[i].socket_state == s.socket_state
                        &&& final(a_socket_list)@[i].honor_rx_to == s.honor_rx_to
                        &&& queue_of(final(a_socket_list)@[i]) == q.update(
                            fl,
                            Protocol { level: q[fl].level, data: d2 },
                        )
                        &&& (s.command != 0 ==> final(a_socket_list)@[i].protocol_queue@
                            == s.protocol_queue@)
                        &&& (s.command == 0 ==> final(a_socket_list)@[i].cmd_queue@
                            == s.cmd_queue@)
                    })
                }
            })
        },
{
    proof {
        lemma_first_sd(a_socket_list@, sd);
    }
    let n: usize = a_socket_list.len();
    let idx = match socket_list_search(a_socket_list, sd) {
        Some(i) => i,
        None => {
            return DLPErrorDefinitions::ErrSockInvalid;
        },
    };
    let mut s = a_socket_list.remove(idx);
    let ghost s0 = s;
    if matches!(level, OptLevels::LevelSock) {
        let r: DLPErrorDefinitions;
        if matches!(option_name, Opt::SocketState) && *option_len == 4 {
            s.socket_state = *option_value as i32;
            *option_len = 4;
            r = DLPErrorDefinitions::ErrNoErr;
        } else if matches!(option_name, Opt::SocketHonorRXTimeout) && *option_len == 4 {
            s.honor_rx_to = *option_value as i32;
            *option_len = 4;
            r = DLPErrorDefinitions::ErrNoErr;
        } else {
            r = DLPErrorDefinitions::ErrGenericArgument;
        }
        let ghost s2 = s;
        a_socket_list.insert(idx, s);
        proof {
            assert(a_socket_list@ =~= old(a_socket_list)@.update(idx as int, s2));
            if r == DLPErrorDefinitions::ErrGenericArgument {
                assert(a_socket_list@ =~= old(a_socket_list)@);
            }
        }
        return r;
    }
    let ghost q = queue_of(s0);
    proof {
        lemma_first_level(q, level);
    }
    let use_cmd = s.command != 0;
    let qlen: usize = if use_cmd {
        s.cmd_queue.len()
    } else {
        s.protocol_queue.len()
    };
    let mut j: usize = 0;
    let mut found = false;
    while j < qlen && !found
        invariant
            j <= qlen,
            use_cmd == (s0.command != 0),
            s == s0,
            q == queue_of(s0),
            qlen == q.len(),
            forall|k: int| 0 <= k < j ==> (#[trigger] q[k]).level != level,
            found ==> j < qlen && q[j as int].level == level,
        decreases qlen - j + (if found {
            0int
        } else {
            1int
        }),
    {
        let here = if use_cmd {
            s.cmd_queue[j].level == level
        } else {
            s.protocol_queue[j].level == level
        };
        if here {
            found = true;
        } else {
            j = j + 1;
        }
    }
    proof {
        lemma_first_level(q, level);
        let fl = first_level(q, level);
        if found {
            if fl == -1 {
                assert(q[j as int].level != level);
            } else if fl < j {
                assert(q[fl].level != level);
                assert(q[fl].level == level);
            } else if fl > j {
                assert(q[j as int].level != level);
            }
            assert(fl == j);
        } else {
            if fl >= 0 {
                assert(q[fl].level != level);
                assert(q[fl].level == level);
            }
            assert(fl == -1);
        }
    }
    if !found {
        let ghost s2 = s;
        a_socket_list.insert(idx, s);
        proof {
            assert(a_socket_list@ =~= old(a_socket_list)@);
        }
        return DLPErrorDefinitions::ErrSockInvalid;
    }
    let found_at = j;
    let old_layer = if use_cmd {
        s.cmd_queue[found_at]
    } else {
        s.protocol_queue[found_at]
    };
    let mut d = old_layer.data;
    let err: DLPErrorDefinitions;
    let mut l2: usize = *option_len;
    if matches!(level, OptLevels::LevelCMP) {
        if matches!(option_name, Opt::CMPType) && *option_len == 1 {
            d.cmp_data_type = *option_value as u8;
            err = DLPErrorDefinitions::ErrNoErr;
            l2 = 1;
        } else if matches!(option_name, Opt::CMPFlags) && *option_len == 1 {
            d.cmp_flags = *option_value as u8;
            err = DLPErrorDefinitions::ErrNoErr;
            l2 = 1;
        } else if matches!(option_name, Opt::CMPVers) && *option_len == 2 {
            d.cmp_version = *option_value as u16;
            err = DLPErrorDefinitions::ErrNoErr;
            l2 = 2;
        } else if matches!(option_name, Opt::CMPBaud) && *option_len == 8 {
            d.cmp_baudrate = *option_value as u64;
            err = DLPErrorDefinitions::ErrNoErr;
            l2 = 8;
        } else {
            err = DLPErrorDefinitions::ErrGenericArgument;
        }
    } else if matches!(level, OptLevels::LevelPADP) {
        if matches!(option_name, Opt::PADPType) && *option_len == 1 {
            d.padp_data_type = *option_value as u8;
            err = DLPErrorDefinitions::ErrNoErr;
            l2 = 1;
        } else {
            err = DLPErrorDefinitions::ErrGenericArgument;
        }
    } else {
        err = DLPErrorDefinitions::ErrGenericArgument;
    }
    if matches!(err, DLPErrorDefinitions::ErrNoErr) {
        let p2 = Protocol { level: old_layer.level, data: d };
        if use_cmd {
            s.cmd_queue.set(found_at, p2);
        } else {
            s.protocol_queue.set(found_at, p2);
        }
        *option_len = l2;
    }
    let ghost s2 = s;
    a_socket_list.insert(idx, s);
    proof {
        assert(a_socket_list@ =~= old(a_socket_list)@.update(idx as int, s2));
        if err == DLPErrorDefinitions::ErrNoErr {
            assert(queue_of(s2) =~= q.update(
                found_at as int,
                Protocol { level: q[found_at as int].level, data: s2_layer_data(s2, found_at as int) },
            ));
        } else {
            assert(a_socket_list@ =~= old(a_socket_list)@);
        }
    }
    err
}

/// The option state of layer `j` on a connection's active stack.
pub open spec fn s2_layer_data(s: Socket, j: int) -> Data {
    queue_of(s)[j].data
}

/// Reads one named option from the connection with the given descriptor:
/// the owning layer's stored value and its length.
pub fn socket_get_sockopt(
    a_socket_list: &Vec<Socket>,
    sd: i32,
    level: OptLevels,
    option_name: Opt,
    option_value: &mut i64,
    option_len: &mut usize,
) -> (r: DLPErrorDefinitions)
    ensures
        first_sd(a_socket_list@, sd) == -1 ==> r == DLPErrorDefinitions::ErrSockInvalid && *final(option_value) == *old(option_value) && *final(option_len) == *old(option_len),
        first_sd(a_socket_list@, sd) >= 0 ==> {
            let s = a_socket_list@[first_sd(a_socket_list@, sd)];
            let q = queue_of(s);
            let fl = first_level(q, level);
            if level == OptLevels::LevelSock {
                if option_name == Opt::SocketState {
                    r == DLPErrorDefinitions::ErrNoErr && *final(option_value)
                        == s.socket_state as i64 && *final(option_len) == 4
                } else if option_name == Opt::SocketHonorRXTimeout {
                    r == DLPErrorDefinitions::ErrNoErr && *final(option_value)
                        == s.honor_rx_to as i64 && *final(option_len) == 4
                } else {
                    r == DLPErrorDefinitions::ErrGenericArgument && *final(option_value) == *old(option_value) && *final(option_len) == *old(option_len)
                }
            } else if fl < 0 {
                r == DLPErrorDefinitions::ErrSockInvalid && *final(option_value) == *old(option_value) && *final(option_len) == *old(option_len)
            } else {
                let (v, err, l2) = read_layer_opt(q[fl].data, level, option_name);
                r == err && (err == DLPErrorDefinitions::ErrNoErr ==> *final(option_value) == v
                    && *final(option_len) == l2) && (err != DLPErrorDefinitions::ErrNoErr ==> *final(option_value) == *old(option_value) && *final(option_len) == *old(option_len))
            }
        },
{
    let sock = match find_socket(a_socket_list, sd) {
        Some(sock) => sock,
        None => {
            return DLPErrorDefinitions::ErrSockInvalid;
        },
    };
    if matches!(level, OptLevels::LevelSock) {
        if matches!(option_name, Opt::SocketState) {
            *option_value = sock.socket_state as i64;
            *option_len = 4;
            return DLPErrorDefinitions::ErrNoErr;
        }
        if matches!(option_name, Opt::SocketHonorRXTimeout) {
            *option_value = sock.honor_rx_to as i64;
            *option_len = 4;
            return DLPErrorDefinitions::ErrNoErr;
        }
        return DLPErrorDefinitions::ErrGenericArgument;
    }
    let layer = match protocol_queue_find(sock, level) {
        Some(p) => p,
        None => {
            return DLPErrorDefinitions::ErrSockInvalid;
        },
    };
    if matches!(level, OptLevels::LevelCMP) {
        if matches!(option_name, Opt::CMPType) {
            *option_value = layer.data.cmp_data_type as i64;
            *option_len = 1;
            return DLPErrorDefinitions::ErrNoErr;
        }
        if matches!(option_name, Opt::CMPFlags) {
            *option_value = layer.data.cmp_flags as i64;
            *option_len = 1;
            return DLPErrorDefinitions::ErrNoErr;
        }
        if matches!(option_name, Opt::CMPVers) {
            *option_value = layer.data.cmp_version as i64;
            *option_len = 2;
            return DLPErrorDefinitions::ErrNoErr;
        }
        if matches!(option_name, Opt::CMPBaud) {
            *option_value = layer.data.cmp_baudrate as i64;
            *option_len = 8;
            return DLPErrorDefinitions::ErrNoErr;
        }
        return DLPErrorDefinitions::ErrGenericArgument;
    }
    if matches!(level, OptLevels::LevelPADP) {
        if matches!(option_name, Opt::PADPType) {
            *option_value = layer.data.padp_data_type as i64;
            *option_len = 1;
            return DLPErrorDefinitions::ErrNoErr;
        }
        return DLPErrorDefinitions::ErrGenericArgument;
    }
    DLPErrorDefinitions::ErrGenericArgument
}

} // verus!
