[package]
name = "shmem_ipc"
version = "0.1.0"
edition = "2021"
publish = false

[dependencies]
libc = "0.2"
memmap2 = "0.9"
tokio = { version = "1", features = ["io-util", "net", "rt", "sync", "time"] }
windows-sys = { version = "0.59", features = [
    "Win32_Foundation",
    "Win32_Security",
    "Win32_Storage_FileSystem",
    "Win32_System_IO",
    "Win32_System_Pipes",
    "Win32_System_Threading",
] }
