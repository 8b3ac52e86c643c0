use compute_engine::{CpuBuffer, GpuBuffer, Instance, Program, TaskBuilder, TaskError};

/// A minimal compute module: a header, one entry point named "main", and
/// one binding declaration per requested slot.
fn module_with_slots(slots: &[u32]) -> Vec<u32> {
    let mut words: Vec<u32> = vec![0x0723_0203, 0x0001_0000, 0, 100, 0];
    words.push((5 << 16) | 15); // entry point, 5 words
    words.push(5); // compute execution model
    words.push(1); // entry function id
    words.push(0x6E69_616D); // "main"
    words.push(0); // terminator and padding
    for (k, slot) in slots.iter().enumerate() {
        words.push((4 << 16) | 71); // decorate, 4 words
        words.push(10 + k as u32); // target id
        words.push(33); // binding decoration
        words.push(*slot);
    }
    words
}

#[test]
fn copy_buffer() {
    let mut instance = Instance::new().unwrap();
    let buffer_a = CpuBuffer::from_vec(&mut instance, vec![1, 2, 3, 4]).unwrap();
    let buffer_b = CpuBuffer::new(&mut instance, 4).unwrap();

    TaskBuilder::new(&instance)
        .unwrap()
        .copy_buffer(&buffer_a, &buffer_b)
        .unwrap()
        .build_submit_and_wait(&mut instance)
        .unwrap();

    assert_eq!(buffer_a.read(&instance).unwrap(), vec![1, 2, 3, 4]);
    assert_eq!(buffer_b.read(&instance).unwrap(), vec![1, 2, 3, 4]);
}

#[test]
fn copy_buffer_twice() {
    let mut instance = Instance::new().unwrap();

    let buffer_a = CpuBuffer::from_vec(&mut instance, vec![1, 2, 3, 4]).unwrap();
    let buffer_b = CpuBuffer::new(&mut instance, 4).unwrap();

    let task = TaskBuilder::new(&instance)
        .unwrap()
        .copy_buffer(&buffer_a, &buffer_b)
        .unwrap()
        .build()
        .unwrap();

    task.submit_and_wait(&mut instance).unwrap();

    assert_eq!(buffer_a.read(&instance).unwrap(), vec![1, 2, 3, 4]);
    assert_eq!(buffer_b.read(&instance).unwrap(), vec![1, 2, 3, 4]);

    buffer_a.write(&mut instance, vec![5, 6, 7, 8]).unwrap();

    task.submit_and_wait(&mut instance).unwrap();

    assert_eq!(buffer_a.read(&instance).unwrap(), vec![5, 6, 7, 8]);
    assert_eq!(buffer_b.read(&instance).unwrap(), vec![5, 6, 7, 8]);
}

#[test]
fn copy_buffer_sub() {
    let mut instance = Instance::new().unwrap();

    let buffer_a = CpuBuffer::from_vec(&mut instance, vec![1, 2, 3, 4]).unwrap();
    let buffer_b = CpuBuffer::new(&mut instance, 4).unwrap();

    TaskBuilder::new(&instance)
        .unwrap()
        .copy_buffer(&buffer_a.sub(0..2).unwrap(), &buffer_b.sub(1..3).unwrap())
        .unwrap()
        .build_submit_and_wait(&mut instance)
        .unwrap();

    assert_eq!(buffer_a.read(&instance).unwrap(), vec![1, 2, 3, 4]);
    assert_eq!(buffer_b.read(&instance).unwrap(), vec![0, 1, 2, 0]);
}

#[test]
fn copy_gpu_buffer() {
    let mut instance = Instance::new().unwrap();
    let buffer_a = CpuBuffer::from_vec(&mut instance, vec![1, 2, 3, 4]).unwrap();
    let buffer_b = GpuBuffer::new(&mut instance, 4).unwrap();
    let buffer_c = CpuBuffer::new(&mut instance, 4).unwrap();

    TaskBuilder::new(&instance)
        .unwrap()
        .copy_buffer(&buffer_a, &buffer_b)
        .unwrap()
        .copy_buffer(&buffer_b, &buffer_c)
        .unwrap()
        .build_submit_and_wait(&mut instance)
        .unwrap();

    assert_eq!(buffer_a.read(&instance).unwrap(), vec![1, 2, 3, 4]);
    assert_eq!(buffer_c.read(&instance).unwrap(), vec![1, 2, 3, 4]);
}

#[test]
fn unequal_copy_fails_without_partial_copy() {
    let mut instance = Instance::new().unwrap();
    let buffer_a = CpuBuffer::from_vec(&mut instance, vec![1, 2, 3, 4]).unwrap();
    let buffer_b = CpuBuffer::from_vec(&mut instance, vec![7, 7, 7]).unwrap();

    let result = TaskBuilder::new(&instance).unwrap().copy_buffer(&buffer_a, &buffer_b);
    assert_eq!(result.unwrap_err(), TaskError::UnequalBufferSize);
    assert_eq!(buffer_b.read(&instance).unwrap(), vec![7, 7, 7]);
}

#[test]
fn overlapping_copy_rejected() {
    let mut instance = Instance::new().unwrap();
    let buffer = CpuBuffer::from_vec(&mut instance, vec![1, 2, 3, 4]).unwrap();
    let head = buffer.sub(0..3).unwrap();
    let tail = buffer.sub(1..4).unwrap();

    let result = TaskBuilder::new(&instance).unwrap().copy_buffer(&head, &tail);
    assert_eq!(result.unwrap_err(), TaskError::CopyRecordingFailed);
}

#[test]
fn foreign_copy_rejected() {
    let mut instance_a = Instance::new().unwrap();
    let mut instance_b = Instance::new().unwrap();
    let src = CpuBuffer::from_vec(&mut instance_a, vec![1, 2]).unwrap();
    let dst = CpuBuffer::new(&mut instance_b, 2).unwrap();

    let result = TaskBuilder::new(&instance_b).unwrap().copy_buffer(&src, &dst);
    assert_eq!(result.unwrap_err(), TaskError::CopyRecordingFailed);
}

#[test]
fn foreign_submission_rejected() {
    let mut instance_a = Instance::new().unwrap();
    let mut instance_b = Instance::new().unwrap();
    let src = CpuBuffer::from_vec(&mut instance_a, vec![1, 2]).unwrap();
    let dst = CpuBuffer::new(&mut instance_a, 2).unwrap();

    let task = TaskBuilder::new(&instance_a)
        .unwrap()
        .copy_buffer(&src, &dst)
        .unwrap()
        .build()
        .unwrap();
    assert_eq!(task.submit_and_wait(&mut instance_b).unwrap_err(), TaskError::SubmissionFailed);
    assert_eq!(dst.read(&instance_a).unwrap(), vec![0, 0]);
}

#[test]
fn run_program_records_and_resubmits() {
    let mut instance = Instance::new().unwrap();
    let words = module_with_slots(&[0]);
    let program = Program::new(&words, "test.glsl", "main").unwrap();
    let buffer = CpuBuffer::from_vec(&mut instance, vec![1, 2, 3, 4]).unwrap();

    let task = TaskBuilder::new(&instance)
        .unwrap()
        .run_program(&program, (4, 1, 1), vec![buffer.bind(0)])
        .unwrap()
        .build()
        .unwrap();

    task.submit_and_wait(&mut instance).unwrap();
    task.submit_and_wait(&mut instance).unwrap();
}

#[test]
fn run_program_wrong_binding() {
    let mut instance = Instance::new().unwrap();
    let words = module_with_slots(&[0]);
    let program = Program::new(&words, "test.glsl", "main").unwrap();
    let buffer = CpuBuffer::from_vec(&mut instance, vec![1, 2, 3, 4]).unwrap();

    assert!(TaskBuilder::new(&instance)
        .unwrap()
        .run_program(&program, (4, 1, 1), vec![buffer.bind(1)])
        .is_err());
}

#[test]
fn binding_count_mismatch_rejected() {
    let mut instance = Instance::new().unwrap();
    let words = module_with_slots(&[0]);
    let program = Program::new(&words, "test.glsl", "main").unwrap();
    let buffer = CpuBuffer::from_vec(&mut instance, vec![1, 2, 3, 4]).unwrap();

    let result = TaskBuilder::new(&instance).unwrap().run_program(
        &program,
        (1, 1, 1),
        vec![buffer.bind(0), buffer.bind(1)],
    );
    assert_eq!(result.unwrap_err(), TaskError::DescriptorSetCreationFailed);
}

#[test]
fn duplicate_binding_rejected() {
    let mut instance = Instance::new().unwrap();
    let words = module_with_slots(&[0, 1]);
    let program = Program::new(&words, "test.glsl", "main").unwrap();
    let buffer = CpuBuffer::from_vec(&mut instance, vec![1, 2, 3, 4]).unwrap();

    let result = TaskBuilder::new(&instance).unwrap().run_program(
        &program,
        (1, 1, 1),
        vec![buffer.bind(0), buffer.bind(0)],
    );
    assert_eq!(result.unwrap_err(), TaskError::DescriptorSetCreationFailed);
}

#[test]
fn foreign_binding_rejected() {
    let mut instance_a = Instance::new().unwrap();
    let mut instance_b = Instance::new().unwrap();
    let words = module_with_slots(&[0]);
    let program = Program::new(&words, "test.glsl", "main").unwrap();
    let buffer = CpuBuffer::from_vec(&mut instance_a, vec![1, 2]).unwrap();

    let result = TaskBuilder::new(&instance_b).unwrap().run_program(
        &program,
        (1, 1, 1),
        vec![buffer.bind(0)],
    );
    assert_eq!(result.unwrap_err(), TaskError::DispatchRecordingFailed);
}

#[test]
fn mixed_sequence_executes_in_order() {
    let mut instance = Instance::new().unwrap();
    let buffer_a = CpuBuffer::from_vec(&mut instance, vec![1, 2]).unwrap();
    let buffer_b = CpuBuffer::new(&mut instance, 2).unwrap();
    let buffer_c = CpuBuffer::new(&mut instance, 2).unwrap();

    TaskBuilder::new(&instance)
        .unwrap()
        .copy_buffer(&buffer_a, &buffer_b)
        .unwrap()
        .copy_buffer(&buffer_b, &buffer_c)
        .unwrap()
        .build_submit_and_wait(&mut instance)
        .unwrap();

    assert_eq!(buffer_c.read(&instance).unwrap(), vec![1, 2]);
}
