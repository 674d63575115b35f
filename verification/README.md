# zero_copy_model_runner

A runner for quantized language models on machines whose CPU, GPU and NPU share memory. The
library under `src/` is verified with Verus; `app/` holds the command line programs and everything
that touches files, devices, the network or floating point.

## Layout

- `container`: the `.q4nx` container (`Q4nxModel`), the GGUF reader and its tensors and tokenizer,
  model topologies, conversion from GGUF, synthesis of XCLBIN hardware graphs and the search for
  ready-made ones. `container::laws` relates writing, stamping and reading a container.
- `uapi`, `backend`, `memory`: the arguments of the kernel requests as bytes, an emulated device,
  and buffers that are shared between devices.
- `engine`: the decode engine, the reference token oracle, greedy sampling, speculative decoding
  and the prefetching of experts.
- `session`: prompts, commands and the generation of an answer.
- `model_cli`, `synth_cli`, `doctor`: what the command line programs decide and print.
- `bytes`, `text`, `string_map`: little-endian numbers, texts as sequences of characters, and maps
  from texts to numbers.

Single-precision numbers stand in the library as their bit patterns. The names of proof functions
that state what holds of the library as a whole begin with `law_`.

The library calls five functions of the standard library through trusted declarations besides
`String::push`: they are in `text` and in `container::tokenizer`.
