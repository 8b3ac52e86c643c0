use compute_engine::{BufferError, CpuBuffer, GpuBuffer, Instance};

#[test]
fn instance_creation() {
    assert!(Instance::new().is_ok());
}

#[test]
fn buffer_creation() {
    let mut instance = Instance::new().unwrap();
    assert!(CpuBuffer::from_vec(&mut instance, (0..1024).collect()).is_ok());
}

#[test]
fn buffer_zero_sized_creation() {
    let mut instance = Instance::new().unwrap();
    assert!(CpuBuffer::from_vec(&mut instance, (0..0).collect()).is_err());
}

#[test]
fn buffer_size() {
    let mut instance = Instance::new().unwrap();
    let buffer = CpuBuffer::from_vec(&mut instance, vec![1, 2, 3, 4]).unwrap();
    assert_eq!(buffer.len(), 4);
}

#[test]
fn buffer_read() {
    let mut instance = Instance::new().unwrap();
    let buffer = CpuBuffer::from_vec(&mut instance, vec![1, 2, 3, 4]).unwrap();
    assert_eq!(buffer.read(&instance).unwrap(), vec![1, 2, 3, 4]);
}

#[test]
fn buffer_write() {
    let mut instance = Instance::new().unwrap();
    let buffer = CpuBuffer::from_vec(&mut instance, vec![1, 2, 3, 4]).unwrap();

    buffer.write(&mut instance, vec![5, 6, 7, 8]).unwrap();
    assert_eq!(buffer.read(&instance).unwrap(), vec![5, 6, 7, 8]);

    buffer.write(&mut instance, vec![9, 10]).unwrap();
    assert_eq!(buffer.read(&instance).unwrap(), vec![9, 10, 7, 8]);
}

#[test]
fn buffer_subregion_read() {
    let mut instance = Instance::new().unwrap();
    let buffer = CpuBuffer::from_vec(&mut instance, vec![1, 2, 3, 4]).unwrap();

    assert_eq!(buffer.sub(0..4).unwrap().read(&instance).unwrap(), vec![1, 2, 3, 4]);
    assert_eq!(buffer.sub(1..3).unwrap().read(&instance).unwrap(), vec![2, 3]);
}

#[test]
fn buffer_subregion_write() {
    let mut instance = Instance::new().unwrap();
    let buffer = CpuBuffer::from_vec(&mut instance, vec![1, 2, 3, 4]).unwrap();
    let sub_buffer = buffer.sub(1..3).unwrap();

    sub_buffer.write(&mut instance, vec![5, 6]).unwrap();
    assert_eq!(sub_buffer.read(&instance).unwrap(), vec![5, 6]);
    assert_eq!(buffer.read(&instance).unwrap(), vec![1, 5, 6, 4]);

    buffer.write(&mut instance, vec![7, 8, 9, 10]).unwrap();
    assert_eq!(sub_buffer.read(&instance).unwrap(), vec![8, 9]);
    assert_eq!(buffer.read(&instance).unwrap(), vec![7, 8, 9, 10]);
}

#[test]
fn buffer_out_of_bounds() {
    let mut instance = Instance::new().unwrap();
    let buffer = CpuBuffer::from_vec(&mut instance, vec![1, 2, 3, 4]).unwrap();
    assert!(buffer.sub(0..4).is_ok());
    assert!(buffer.sub(0..0).is_err());
    assert!(buffer.sub(0..5).is_err());
    assert!(buffer.sub(4..8).is_err());
}

#[test]
fn buffer_clone() {
    let mut instance = Instance::new().unwrap();
    let buffer_a = CpuBuffer::from_vec(&mut instance, vec![1, 2, 3, 4]).unwrap();
    let buffer_b = buffer_a.clone();

    assert_eq!(buffer_a.read(&instance).unwrap(), vec![1, 2, 3, 4]);
    assert_eq!(buffer_b.read(&instance).unwrap(), vec![1, 2, 3, 4]);

    buffer_a.sub(1..3).unwrap().write(&mut instance, vec![5, 6]).unwrap();

    assert_eq!(buffer_a.read(&instance).unwrap(), vec![1, 5, 6, 4]);
    assert_eq!(buffer_b.read(&instance).unwrap(), vec![1, 5, 6, 4]);
}

#[test]
fn cpu_buffer_creation() {
    let mut instance = Instance::new().unwrap();
    assert!(CpuBuffer::from_vec(&mut instance, (0..1024).collect()).is_ok());
}

#[test]
fn cpu_buffer_zero_sized_creation() {
    let mut instance = Instance::new().unwrap();
    assert!(CpuBuffer::from_vec(&mut instance, (0..0).collect()).is_err());
}

#[test]
fn cpu_buffer_size() {
    let mut instance = Instance::new().unwrap();
    let buffer = CpuBuffer::from_vec(&mut instance, vec![1, 2, 3, 4]).unwrap();
    assert_eq!(buffer.len(), 4);
}

#[test]
fn cpu_buffer_read() {
    let mut instance = Instance::new().unwrap();
    let buffer = CpuBuffer::from_vec(&mut instance, vec![1, 2, 3, 4]).unwrap();
    assert_eq!(buffer.read(&instance).unwrap(), vec![1, 2, 3, 4]);
}

#[test]
fn cpu_buffer_write() {
    let mut instance = Instance::new().unwrap();
    let buffer = CpuBuffer::from_vec(&mut instance, vec![1, 2, 3, 4]).unwrap();

    buffer.write(&mut instance, vec![5, 6, 7, 8]).unwrap();
    assert_eq!(buffer.read(&instance).unwrap(), vec![5, 6, 7, 8]);

    buffer.write(&mut instance, vec![9, 10]).unwrap();
    assert_eq!(buffer.read(&instance).unwrap(), vec![9, 10, 7, 8]);
}

#[test]
fn cpu_buffer_subregion_read() {
    let mut instance = Instance::new().unwrap();
    let buffer = CpuBuffer::from_vec(&mut instance, vec![1, 2, 3, 4]).unwrap();

    assert_eq!(buffer.sub(0..4).unwrap().read(&instance).unwrap(), vec![1, 2, 3, 4]);
    assert_eq!(buffer.sub(1..3).unwrap().read(&instance).unwrap(), vec![2, 3]);
}

#[test]
fn cpu_buffer_subregion_write() {
    let mut instance = Instance::new().unwrap();
    let buffer = CpuBuffer::from_vec(&mut instance, vec![1, 2, 3, 4]).unwrap();
    let sub_buffer = buffer.sub(1..3).unwrap();

    sub_buffer.write(&mut instance, vec![5, 6]).unwrap();
    assert_eq!(sub_buffer.read(&instance).unwrap(), vec![5, 6]);
    assert_eq!(buffer.read(&instance).unwrap(), vec![1, 5, 6, 4]);

    buffer.write(&mut instance, vec![7, 8, 9, 10]).unwrap();
    assert_eq!(sub_buffer.read(&instance).unwrap(), vec![8, 9]);
    assert_eq!(buffer.read(&instance).unwrap(), vec![7, 8, 9, 10]);
}

#[test]
fn cpu_buffer_out_of_bounds() {
    let mut instance = Instance::new().unwrap();
    let buffer = CpuBuffer::from_vec(&mut instance, vec![1, 2, 3, 4]).unwrap();
    assert!(buffer.sub(0..4).is_ok());
    assert!(buffer.sub(0..0).is_err());
    assert!(buffer.sub(0..5).is_err());
    assert!(buffer.sub(4..8).is_err());
}

#[test]
fn cpu_buffer_clone() {
    let mut instance = Instance::new().unwrap();
    let buffer_a = CpuBuffer::from_vec(&mut instance, vec![1, 2, 3, 4]).unwrap();
    let buffer_b = buffer_a.clone();

    assert_eq!(buffer_a.read(&instance).unwrap(), vec![1, 2, 3, 4]);
    assert_eq!(buffer_b.read(&instance).unwrap(), vec![1, 2, 3, 4]);

    buffer_a.sub(1..3).unwrap().write(&mut instance, vec![5, 6]).unwrap();

    assert_eq!(buffer_a.read(&instance).unwrap(), vec![1, 5, 6, 4]);
    assert_eq!(buffer_b.read(&instance).unwrap(), vec![1, 5, 6, 4]);
}

#[test]
fn gpu_buffer_creation() {
    let mut instance = Instance::new().unwrap();
    assert!(GpuBuffer::new(&mut instance, 1024).is_ok());
}

#[test]
fn gpu_buffer_zero_sized_creation() {
    let mut instance = Instance::new().unwrap();
    assert!(GpuBuffer::new(&mut instance, 0).is_err());
}

#[test]
fn gpu_buffer_size() {
    let mut instance = Instance::new().unwrap();
    let buffer = GpuBuffer::new(&mut instance, 1024).unwrap();
    assert_eq!(buffer.len(), 1024);
}

#[test]
fn allocation_length_matches_request() {
    let mut instance = Instance::new().unwrap();
    let cpu = CpuBuffer::new(&mut instance, 7).unwrap();
    assert_eq!(cpu.len(), 7);
    assert_eq!(cpu.read(&instance).unwrap(), vec![0; 7]);
    let gpu = GpuBuffer::new(&mut instance, 3).unwrap();
    assert_eq!(gpu.len(), 3);
    assert_eq!(CpuBuffer::new(&mut instance, 0).unwrap_err(), BufferError::ZeroLength);
    assert_eq!(GpuBuffer::new(&mut instance, 0).unwrap_err(), BufferError::ZeroLength);
}

#[test]
fn subrange_length_matches_range() {
    let mut instance = Instance::new().unwrap();
    let buffer = CpuBuffer::new(&mut instance, 10).unwrap();
    assert_eq!(buffer.sub(2..9).unwrap().len(), 7);
    assert_eq!(buffer.sub(0..1).unwrap().len(), 1);
    assert_eq!(buffer.sub(3..3).unwrap_err(), BufferError::EmptyRange);
    assert_eq!(buffer.sub(5..4).unwrap_err(), BufferError::EmptyRange);
    assert_eq!(buffer.sub(5..11).unwrap_err(), BufferError::OutOfBounds);
}

#[test]
fn partial_write_keeps_tail() {
    let mut instance = Instance::new().unwrap();
    let buffer = CpuBuffer::from_vec(&mut instance, vec![1, 2, 3, 4]).unwrap();
    buffer.write(&mut instance, vec![9, 10]).unwrap();
    assert_eq!(buffer.read(&instance).unwrap(), vec![9, 10, 3, 4]);
}

#[test]
fn oversized_write_truncates() {
    let mut instance = Instance::new().unwrap();
    let buffer = CpuBuffer::from_vec(&mut instance, vec![1, 2]).unwrap();
    buffer.write(&mut instance, vec![7, 8, 9]).unwrap();
    assert_eq!(buffer.read(&instance).unwrap(), vec![7, 8]);
}

#[test]
fn foreign_buffer_host_access_fails() {
    let mut instance_a = Instance::new().unwrap();
    let mut instance_b = Instance::new().unwrap();
    let buffer = CpuBuffer::from_vec(&mut instance_a, vec![1, 2, 3]).unwrap();
    assert_eq!(buffer.read(&instance_b).unwrap_err(), BufferError::ReadFailed);
    assert_eq!(buffer.write(&mut instance_b, vec![4]).unwrap_err(), BufferError::WriteFailed);
    assert_eq!(buffer.read(&instance_a).unwrap(), vec![1, 2, 3]);
}
