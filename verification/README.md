# svd

Register access for peripherals described by SVD files, verified with Verus.

- `regs`, `util`, `access`: field masks as (bits to clear, bits to set)
  pairs, their combination, and what a register holds after a write.
- `foo`: the first generation of the same runtime and of the code generator.
- `fromxml`, `svd_xml`, `ioregs::decode`: a walk over the events of an XML
  document and the readers of the device description built on it.
- `common`, `layout`, `generator`, `emit`, `device_code`: from the device
  description to peripheral ASTs, their memory layout, and the Rust code of
  their register blocks.
- `token`, `reader`, `parser`: the register description language of the
  macros.
- `dump`, `ioregs::listing`: the text forms that the command line tools print.

`app/` holds the two command line tools (file access and arguments);
`tests/` runs the library on concrete inputs.
