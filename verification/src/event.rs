//! VM events for recording and replay.

use vstd::prelude::*;

use crate::ops::{HostError, SyscallId};
use crate::value::{Value, ValueModel};

verus! {

/// One syscall as observed by the VM: its id, the argument values handed to
/// the host, and the host's outcome.
#[derive(Debug, PartialEq)]
pub struct SyscallEvent {
    pub id: SyscallId,
    pub args: Vec<Value>,
    pub result: Result<Vec<Value>, HostError>,
}

/// An event emitted by the VM towards an event sink.
#[derive(Debug, PartialEq)]
pub enum VmEvent {
    Syscall(SyscallEvent),
}

/// Mathematical model of a syscall event; a host error is modelled by its
/// message.
pub struct SyscallEventModel {
    pub id: SyscallId,
    pub args: Seq<ValueModel>,
    pub result: Result<Seq<ValueModel>, Seq<char>>,
}

pub enum VmEventModel {
    Syscall(SyscallEventModel),
}

impl View for SyscallEvent {
    type V = SyscallEventModel;

    open spec fn view(&self) -> SyscallEventModel {
        SyscallEventModel {
            id: self.id,
            args: self.args.deep_view(),
            result: match self.result {
                Ok(values) => Ok(values.deep_view()),
                Err(error) => Err(error.spec_message()),
            },
        }
    }
}

impl View for VmEvent {
    type V = VmEventModel;

    open spec fn view(&self) -> VmEventModel {
        match self {
            VmEvent::Syscall(event) => VmEventModel::Syscall(event@),
        }
    }
}

/// An external collaborator that receives `VmEvent` values.
///
/// `events` is the sequence of events the sink has accepted so far; `emit`
/// appends exactly one. The library itself implements no sink: what is proved
/// through this trait holds of implementations that meet `emit`'s contract;
/// an implementation that keeps the default `events` cannot.
pub trait EventSink {
    open spec fn events(&self) -> Seq<VmEventModel> {
        Seq::empty()
    }

    fn emit(&mut self, event: VmEvent)
        ensures
            final(self).events() == old(self).events().push(event@),
    ;
}

} // verus!
