# apexsu

Userspace pieces of ApexSU: checking module archives before they are
installed, the self-diagnostic report of `ksud`, and the manager's bridge to
the kernel driver (app profiles, capability lists, feature switches).

## Layout

- `src/` is the library, written in Verus. Every function carries a contract
  over a mathematical model of its data, and the properties that tie several
  functions together are stated and proved as public proof functions:
  - `text`: UTF-8 lengths, trimming, decimal printing and parsing.
  - `module_validator`: module IDs, entry names, `module.prop` and the
    validation report of an archive. A report is valid exactly when the
    archive is acceptable (`valid_report_iff_acceptable`), which covers
    entry names, sizes, symbolic links leaving the module and `module.prop`.
  - `zip_archive`: the calls into the `zip` crate that reading an archive
    in memory needs.
  - `diagnostics`: the checks of a diagnostic run (kernel module, working
    directory and its writability, binary directory, the ksud binary and its
    permissions, module directories, allowlist), computed from what was
    observed of the system, and the report's summary and text.
  - `fixed_str`, `capabilities`, `app_profile`, `kernel_bridge`: C-string
    buffers, capability masks, the kernel's profile record and the decisions
    of the driver bridge.
- `app/` holds what needs the operating system or the JVM: the JNI exports,
  the ioctl and `prctl` calls, reading files and directories, and the JSON
  output. It hands plain values to the library and acts on its answers.
- `tests/` exercises the library on concrete values.
