# banksy_c2pa

A local C2PA image-provenance signer for PNG and JPEG files, written as a
verified library with a thin command-line program around it.

- `src/` is the library, verified with Verus. It holds the rules of the
  tool: the PNG and JPEG container walks, image and C2PA classification,
  the status scan and batch signing decisions, the checks made before and
  after a signature, the evidence-bundle format and its audit, the profile
  rules, the certificate plans and requests, and the interactive menu's
  choices and texts. It also drives the outside libraries that only
  compute: reading and writing evidence ZIPs in memory, reading and signing
  C2PA manifests in memory, decoding images, hashing, and parsing
  certificates. Each public function's contract states its result, except where the
  result comes from the C2PA reader or signer, whose verdicts depend on the
  current time: there the contract states what is handed to them and what the
  library does with what comes back. The
  `law_*` proof functions state properties that relate several functions.
- `app/` is the program: argument parsing, files and directories, temporary
  files and commits, key generation with rcgen, the macOS Keychain, JSON and
  TOML documents, and the terminal menu.
- `tests/` runs the library on concrete inputs.
