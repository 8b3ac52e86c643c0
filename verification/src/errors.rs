use vstd::prelude::*;

verus! {

/// Errors raised by buffer allocation, sub-ranging and host access.
#[derive(Clone, Copy, Debug, PartialEq, Eq, Structural)]
pub enum BufferError {
    /// A buffer of zero elements was requested; an empty buffer is not a
    /// valid state.
    ZeroLength,
    /// The storage allocation was rejected by the device layer.
    AllocationFailed,
    /// A sub-range with `start >= end` was requested.
    EmptyRange,
    /// A sub-range reaching past the end of the buffer was requested.
    OutOfBounds,
    /// The buffer's memory could not be read on the host side.
    ReadFailed,
    /// The buffer's memory could not be written on the host side.
    WriteFailed,
}

/// Errors raised while setting up a device context.
#[derive(Clone, Copy, Debug, PartialEq, Eq, Structural)]
pub enum InstanceError {
    /// The device layer's loader library was not found.
    NoLibrary,
    /// The driver rejected the creation of the API instance.
    InstanceCreationFailed,
    /// No physical device was found.
    NoDevice,
    /// No queue family capable of compute work was found.
    NoQueue,
    /// The logical device could not be created.
    DeviceCreationFailed,
}

/// Errors raised while turning a compiled shader module into a pipeline.
#[derive(Clone, Debug)]
pub enum ProgramError {
    /// The external compiler rejected the shader source; carries its full
    /// diagnostic output.
    CompilationFailed(String),
    /// The compiled binary is not a well-formed shader module.
    ShaderModuleCreationFailed,
    /// The requested entry point is not declared by the module; carries the
    /// name that was looked up.
    EntryPointNotFound(String),
    /// The module's resource-binding declarations are inconsistent, so no
    /// pipeline layout can be derived from them.
    PipelineLayoutCreationFailed,
    /// The device rejected the compute pipeline.
    PipelineCreationFailed,
}

/// Errors raised while recording, building, submitting or waiting on a
/// command sequence.
#[derive(Clone, Copy, Debug, PartialEq, Eq, Structural)]
pub enum TaskError {
    /// The command-recording resource could not be allocated.
    BuilderCreationFailed,
    /// A copy between buffers of different lengths was requested.
    UnequalBufferSize,
    /// The copy could not be recorded.
    CopyRecordingFailed,
    /// The bindings handed to a dispatch do not match the program's
    /// descriptor-set layout.
    DescriptorSetCreationFailed,
    /// The dispatch could not be recorded.
    DispatchRecordingFailed,
    /// The recorded sequence could not be finalized.
    CommandSequenceBuildFailed,
    /// The queue rejected the submission.
    SubmissionFailed,
    /// Waiting on the completion fence failed.
    WaitFailed,
}

} // verus!
